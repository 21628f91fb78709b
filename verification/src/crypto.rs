//! The cryptographic primitives: HMAC-SHA256, constant-time comparison and the
//! system's random bytes.

use vstd::prelude::*;

use hmac::Mac;
use subtle::ConstantTimeEq;

verus! {

/// The HMAC-SHA256 tag of `message` under `key`.
pub uninterp spec fn hmac_sha256_tag(key: Seq<u8>, message: Seq<u8>) -> Seq<u8>;

/// `Hmac::<Sha256>::new_from_slice`, `update` and `finalize`: the tag of
/// `message` under `key`, named by `hmac_sha256_tag`. HMAC accepts keys of any
/// length, so `new_from_slice` never fails; the tag is 32 bytes long.
#[verifier::external_body]
pub(crate) fn hmac_sha256(key: &[u8], message: &[u8]) -> (tag: Vec<u8>)
    ensures
        tag@ == hmac_sha256_tag(key@, message@),
        tag@.len() == 32,
{
    let mut mac = hmac::Hmac::<sha2::Sha256>::new_from_slice(key).expect("HMAC accepts any key size");
    mac.update(message);
    mac.finalize().into_bytes().to_vec()
}

/// `Hmac::<Sha256>::new_from_slice`, `update` and `verify_slice`: whether `tag`
/// equals the whole tag of `message` under `key` (compared in constant time; a
/// tag of another length is refused).
#[verifier::external_body]
pub(crate) fn hmac_sha256_verify(key: &[u8], message: &[u8], tag: &[u8]) -> (ok: bool)
    ensures
        ok == (tag@ == hmac_sha256_tag(key@, message@)),
{
    let mut mac = hmac::Hmac::<sha2::Sha256>::new_from_slice(key).expect("HMAC accepts any key size");
    mac.update(message);
    mac.verify_slice(tag).is_ok()
}

/// `subtle::ConstantTimeEq::ct_eq` on byte slices: true exactly when both slices
/// have the same length and the same bytes.
#[verifier::external_body]
pub(crate) fn bytes_ct_eq(a: &[u8], b: &[u8]) -> (eq: bool)
    ensures
        eq == (a@ == b@),
{
    bool::from(a.ct_eq(b))
}

/// The error type of `getrandom` (`getrandom::Error`), carried opaquely.
#[verifier::external_type_specification]
#[verifier::external_body]
pub struct ExRandomError(getrandom::Error);

/// `getrandom::getrandom` on an eight-byte buffer. The bytes come from the
/// operating system and nothing is claimed of them but their number; the call
/// may fail.
#[verifier::external_body]
pub(crate) fn random_bytes() -> (out: Result<Vec<u8>, getrandom::Error>)
    ensures
        out matches Ok(v) ==> v@.len() == 8,
{
    let mut bytes = [0u8; 8];
    match getrandom::getrandom(&mut bytes) {
        Ok(()) => Ok(bytes.to_vec()),
        Err(e) => Err(e),
    }
}

} // verus!
