//! The signing primitive of the token codec: HMAC-SHA-256 under the
//! shared secret.
//!
//! The digest itself is an outside computation; `hmac_sha256_of` names
//! its result, and every contract of the codec speaks through that name.

use vstd::prelude::*;

verus! {

pub uninterp spec fn hmac_sha256_of(key: Seq<u8>, msg: Seq<u8>) -> Seq<u8>;

/// Relies on `hmac::Hmac<sha2::Sha256>` (`Mac::new_from_slice`, which
/// accepts a key of any length, then `update` and `finalize`): the digest
/// is a function of key and message alone, and is 32 bytes long.
#[verifier::external_body]
pub(crate) fn hmac_sha256(key: &[u8], msg: &[u8]) -> (r: Vec<u8>)
    ensures
        r@ == hmac_sha256_of(key@, msg@),
        r@.len() == 32,
{
    let mut mac = <hmac::Hmac<sha2::Sha256> as hmac::Mac>::new_from_slice(key).unwrap();
    hmac::Mac::update(&mut mac, msg);
    hmac::Mac::finalize(mac).into_bytes().to_vec()
}

} // verus!
