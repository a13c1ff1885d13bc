use vstd::prelude::*;

verus! {

#[verifier::external_type_specification]
#[verifier::external_body]
pub struct ExInvalidLength(hmac::digest::InvalidLength);

/// Why a request of the service fails.
#[derive(Debug)]
pub enum Error {
    BadRequest(String),
    Unauthorized(String),
    Internal(String),
    Env(String),
    Custom(String),
    HmacInvalidLengthError(hmac::digest::InvalidLength),
}

} // verus!
