//! The keyed hash under every token.

use crypto_mac::Mac;
use hmac::Hmac;
use sha1::Sha1;
use vstd::prelude::*;

verus! {

/// The HMAC-SHA1 tag of `data` under `key`, as the `hmac` and `sha-1` crates
/// compute it. The tag depends on the two byte strings and on nothing else.
pub uninterp spec fn hmac_sha1(key: Seq<u8>, data: Seq<u8>) -> Seq<u8>;

/// Runs `Hmac::<Sha1>` over `data`: `new_varkey`, which accepts a key of any
/// length, then `input`, then `result().code()`.
///
/// Trusted: the bytes returned are the tag that [`hmac_sha1`] names.
#[verifier::external_body]
pub(crate) fn hmac_sha1_tag(key: &[u8], data: &[u8]) -> (tag: Vec<u8>)
    ensures
        tag@ == hmac_sha1(key@, data@),
{
    let mut mac = Hmac::<Sha1>::new_varkey(key).unwrap();
    mac.input(data);
    mac.result().code().to_vec()
}

} // verus!
