//! The code-hosting client's plain half: the token it carries and the
//! files a gist answer holds.  The HTTP call is made by the binary.

use vstd::prelude::*;

verus! {

/// One file of a gist: its text.
pub struct GistFile {
    pub content: Vec<u8>,
}

/// The gist client: the token every request carries.
pub struct GistClient {
    pub oauth_bearer_token: Vec<u8>,
}

impl GistClient {
    /// A client that will authenticate with the given token.
    pub fn new(oauth_bearer_token: Vec<u8>) -> (r: GistClient)
        ensures
            r.oauth_bearer_token@ == oauth_bearer_token@,
    {
        GistClient { oauth_bearer_token }
    }
}

} // verus!
