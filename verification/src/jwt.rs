//! What a verified token says of its bearer.

use vstd::prelude::*;

verus! {

/// The claims of a token that passed verification.
#[derive(Clone, Debug)]
pub struct ValidatedJwt {
    pub iss: String,
    pub sub: String,
    pub aud: String,
    pub scopes: Vec<String>,
    pub exp: u64,
}

} // verus!
