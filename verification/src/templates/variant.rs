//! The rendering target a template body applies to.

use vstd::prelude::*;

verus! {

/// Which template body is rendered: the plain chat text, or the richer
/// formatting of the second chat backend.
#[derive(Clone, Copy, Debug, PartialEq, Eq, Hash, Structural)]
pub enum Variant {
    Default,
    Discord,
}

} // verus!
