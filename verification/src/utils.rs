//! Checksums and encodings used beside signing.

use crate::base64::{base64url, to_base64_url};
use vstd::prelude::*;

verus! {

/// The CRC-32 checksum of `bytes` with the IEEE polynomial, as the `crc`
/// crate computes it.
pub uninterp spec fn crc32_ieee(bytes: Seq<u8>) -> u32;

/// Calls `crc32::checksum_ieee` of the `crc` crate.
///
/// Trusted: the number returned is the checksum that [`crc32_ieee`] names.
#[verifier::external_body]
fn checksum_ieee(bytes: &[u8]) -> (sum: u32)
    ensures
        sum == crc32_ieee(bytes@),
{
    crc::crc32::checksum_ieee(bytes)
}

/// The CRC-32 (IEEE) checksum of `bytes`.
pub fn crc32_bytes(bytes: &[u8]) -> (sum: u32)
    ensures
        sum == crc32_ieee(bytes@),
{
    checksum_ieee(bytes)
}

/// Encodes `bytes` as base64url text without padding.
pub fn base64_encode(bytes: &[u8]) -> (text: String)
    ensures
        text@ == base64url(bytes@, false),
{
    to_base64_url(bytes, false)
}

} // verus!
