//! Configuration of lookups shared between a client and a server.

use vstd::prelude::*;

verus! {

/// Configuration for lookup operations: the maximum length, in characters
/// (not bytes), of a lookup's text.
#[derive(Debug, Clone)]
pub struct LookupConfig {
    pub max_request_len: u64,
}

impl Default for LookupConfig {
    /// A maximum request length of 16 characters.
    fn default() -> (r: Self)
        ensures
            r.max_request_len == 16,
    {
        LookupConfig { max_request_len: 16 }
    }
}

} // verus!
