//! Content checksums.

use vstd::prelude::*;

verus! {

/// The SHA-256 digest of some bytes, as 64 lower-case hexadecimal digits.
pub uninterp spec fn sha256_hex(data: Seq<u8>) -> Seq<char>;

/// `sha256::digest` on a byte slice: the digest depends on the bytes alone.
#[verifier::external_body]
fn sha256_digest(data: &[u8]) -> (hex: String)
    ensures
        hex@ == sha256_hex(data@),
{
    sha256::digest(data)
}

/// The checksum that the registry records for an archive.
pub fn checksum(archive: &[u8]) -> (hex: String)
    ensures
        hex@ == sha256_hex(archive@),
{
    sha256_digest(archive)
}

} // verus!
