//! Secrets and the configuration shapes that carry them.  A secret
//! remembers which key it was loaded from; only the key is ever shown.

use vstd::prelude::*;

verus! {

/// A value loaded from the environment under `key`; displaying the
/// secret shows the key alone.
pub struct Secret {
    pub key: Vec<u8>,
    pub value: Vec<u8>,
}

impl Secret {
    /// A secret with both key and value given.
    pub fn new_key_value(key: Vec<u8>, value: Vec<u8>) -> (r: Secret)
        ensures
            r.key@ == key@,
            r.value@ == value@,
    {
        Secret { key, value }
    }

    /// A secret known only by key, its value still empty.
    pub fn new_key(key: Vec<u8>) -> (r: Secret)
        ensures
            r.key@ == key@,
            r.value@.len() == 0,
    {
        Secret { key, value: Vec::new() }
    }

    /// Takes the secret value out.
    pub fn into_value(self) -> (r: Vec<u8>)
        ensures
            r@ == self.value@,
    {
        self.value
    }

    /// What may be shown of a secret: its key, never its value.
    pub fn show_key(&self) -> (r: Vec<u8>)
        ensures
            r@ == self.key@,
    {
        crate::text::subrange_vec(self.key.as_slice(), 0, self.key.len())
    }
}

/// The streaming service's API credentials.
pub struct HelixConfig {
    pub client_id: Secret,
    pub client_secret: Secret,
}

/// The music player's API credentials.
pub struct SpotifyConfig {
    pub client_id: Secret,
    pub client_secret: Secret,
}

/// The code-hosting API token.
pub struct GithubConfig {
    pub oauth_token: Secret,
}

} // verus!
