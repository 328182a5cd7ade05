//! BLAKE3 digests.
use vstd::prelude::*;

verus! {

/// The BLAKE3 digest of a byte string.
pub uninterp spec fn blake3_hash(data: Seq<u8>) -> Seq<u8>;

/// The BLAKE3 keyed digest of a byte string.
pub uninterp spec fn blake3_keyed(key: Seq<u8>, data: Seq<u8>) -> Seq<u8>;

/// Calls `blake3::hash`. Its result is a function of the data alone, named [`blake3_hash`]; that
/// it is thirty-two bytes long is the type's.
#[verifier::external_body]
pub(crate) fn hash(data: &[u8]) -> (h: [u8; 32])
    ensures
        h@ == blake3_hash(data@),
{
    *blake3::hash(data).as_bytes()
}

/// Calls `blake3::keyed_hash`. Its result is a function of the key and the data alone, named
/// [`blake3_keyed`].
#[verifier::external_body]
pub(crate) fn keyed_hash(key: &[u8; 32], data: &[u8]) -> (h: [u8; 32])
    ensures
        h@ == blake3_keyed(key@, data@),
{
    *blake3::keyed_hash(key, data).as_bytes()
}

/// The digest by which a blob is known.
pub fn digest_of(data: &[u8]) -> (h: [u8; 32])
    ensures
        h@ == blake3_hash(data@),
{
    hash(data)
}

} // verus!
