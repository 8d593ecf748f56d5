//! The claims that an executor's bearer token carries. Minting the token from
//! them, and checking one, happen outside this library.
use vstd::prelude::*;
use vstd::string::StringExecFns;

verus! {

/// Expiry written into every token, in seconds since the epoch: far enough
/// ahead that no token runs out.
pub const TOKEN_EXPIRY: u64 = 10_000_000_000;

/// What a token says: whom it was issued for, and until when it holds.
#[derive(Debug)]
pub struct Claims {
    /// The executor's identity.
    pub sub: String,
    /// When the token expires, in seconds since the epoch.
    pub exp: usize,
}

impl Claims {
    /// The claims for an executor's token: the executor as subject, and
    /// `TOKEN_EXPIRY` as expiry. There are none on a machine whose word is too
    /// short to hold that expiry.
    pub fn for_executor(executor_id: &str) -> (r: Option<Claims>)
        ensures
            r is Some <==> TOKEN_EXPIRY <= usize::MAX,
            r is Some ==> r->0.sub@ == executor_id@ && r->0.exp == TOKEN_EXPIRY,
    {
        if TOKEN_EXPIRY <= usize::MAX as u64 {
            Some(Claims { sub: String::from_str(executor_id), exp: TOKEN_EXPIRY as usize })
        } else {
            None
        }
    }
}

} // verus!
