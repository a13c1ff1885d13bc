use vstd::prelude::*;

use hmac::{Hmac, Mac};
use sha2::Sha256;

use crate::error::Error;

verus! {

/// HMAC-SHA-256 (RFC 2104 over FIPS 180-4 SHA-256) of `data` under `key`,
/// as the `hmac` crate computes it.
pub uninterp spec fn spec_hmac_sha256(key: Seq<u8>, data: Seq<u8>) -> Seq<u8>;

/// Calls `new_from_slice`, `update` and `finalize` of `hmac::Hmac<sha2::Sha256>`.
/// Claimed: the tag is `spec_hmac_sha256(key, data)`, it is 32 bytes long
/// (SHA-256's output size), and `new_from_slice` never fails, since HMAC
/// takes keys of any length (a longer key is hashed first).
#[verifier::external_body]
fn mac_sha256(key: &[u8], data: &[u8]) -> (res: Result<Vec<u8>, hmac::digest::InvalidLength>)
    ensures
        res is Ok,
        res matches Ok(tag) ==> tag@ == spec_hmac_sha256(key@, data@),
        res matches Ok(tag) ==> tag@.len() == 32,
{
    let mut mac = <Hmac<Sha256> as Mac>::new_from_slice(key)?;
    mac.update(data);
    Ok(mac.finalize().into_bytes().to_vec())
}

/// The HMAC-SHA-256 tag of `data` under `key`.
pub fn hmac_sha256(key: &[u8], data: &[u8]) -> (res: Result<Vec<u8>, Error>)
    ensures
        res matches Ok(tag) && tag@ == spec_hmac_sha256(key@, data@) && tag@.len() == 32,
{
    match mac_sha256(key, data) {
        Ok(tag) => Ok(tag),
        Err(e) => Err(Error::HmacInvalidLengthError(e)),
    }
}

} // verus!
