//! The delivery-mode envelope around a response payload, and the handler
//! outcome contract.

use vstd::prelude::*;

verus! {

/// How a payload is delivered: broadcast, addressed to the sender, or
/// addressed as an error.
pub enum Reply<T> {
    Say(T),
    Reply(T),
    Problem(T),
}

/// The delivery mode alone, without the payload.
#[derive(Clone, Copy, Debug, PartialEq, Eq, Structural)]
pub enum ReplyKind {
    Say,
    Reply,
    Problem,
}

impl<T> Reply<T> {
    /// The envelope's delivery mode.
    pub open spec fn kind_spec(&self) -> ReplyKind {
        match self {
            Reply::Say(_) => ReplyKind::Say,
            Reply::Reply(_) => ReplyKind::Reply,
            Reply::Problem(_) => ReplyKind::Problem,
        }
    }

    /// The payload inside the envelope.
    pub open spec fn payload(&self) -> T {
        match self {
            Reply::Say(v) => *v,
            Reply::Reply(v) => *v,
            Reply::Problem(v) => *v,
        }
    }

    /// Rebuilds an envelope of the same mode around a new payload.
    pub open spec fn with_payload<U>(&self, u: U) -> Reply<U> {
        match self {
            Reply::Say(_) => Reply::Say(u),
            Reply::Reply(_) => Reply::Reply(u),
            Reply::Problem(_) => Reply::Problem(u),
        }
    }

    /// Applies `f` to the payload, keeping the delivery mode.
    pub fn map<U, F: FnOnce(T) -> U>(self, f: F) -> (r: Reply<U>)
        requires
            f.requires((self.payload(),)),
        ensures
            r.kind_spec() == self.kind_spec(),
            f.ensures((self.payload(),), r.payload()),
    {
        match self {
            Reply::Say(v) => Reply::Say(f(v)),
            Reply::Reply(v) => Reply::Reply(f(v)),
            Reply::Problem(v) => Reply::Problem(f(v)),
        }
    }

    /// A reference to the payload.
    pub fn inner(&self) -> (r: &T)
        ensures
            *r == self.payload(),
    {
        match self {
            Reply::Say(v) => v,
            Reply::Reply(v) => v,
            Reply::Problem(v) => v,
        }
    }
}

impl<T> Reply<Option<T>> {
    /// Moves the optional payload outside the envelope.
    pub fn transpose(self) -> (r: Option<Reply<T>>)
        ensures
            match self.payload() {
                Some(v) => r matches Some(rr) && rr.kind_spec() == self.kind_spec()
                    && rr.payload() == v,
                None => r is None,
            },
    {
        match self {
            Reply::Say(inner) => match inner {
                Some(v) => Some(Reply::Say(v)),
                None => None,
            },
            Reply::Reply(inner) => match inner {
                Some(v) => Some(Reply::Reply(v)),
                None => None,
            },
            Reply::Problem(inner) => match inner {
                Some(v) => Some(Reply::Problem(v)),
                None => None,
            },
        }
    }
}

/// What a handler's work came to: nothing to report, an error to surface
/// as a problem reply, or a detached background task whose failure is
/// surfaced later.
pub enum Outcome {
    Success,
    Failure(Vec<u8>),
    Task,
}

impl Outcome {
    /// The error text to surface, if any.
    pub fn into_error(self) -> (r: Option<Vec<u8>>)
        ensures
            match self {
                Outcome::Failure(e) => r matches Some(v) && v@ == e@,
                _ => r is None,
            },
    {
        match self {
            Outcome::Failure(e) => Some(e),
            _ => None,
        }
    }

    /// Whether the outcome is an error.
    pub fn is_error(&self) -> (r: bool)
        ensures
            r == (self matches Outcome::Failure(_)),
    {
        matches!(self, Outcome::Failure(_))
    }

    /// Whether the outcome left a background task behind.
    pub fn is_task(&self) -> (r: bool)
        ensures
            r == (self matches Outcome::Task),
    {
        matches!(self, Outcome::Task)
    }
}

} // verus!
