use vstd::prelude::*;

verus! {

/// The CRC-32 (IEEE 802.3 polynomial) of a byte sequence, as computed by
/// the `crc32fast` crate.
pub uninterp spec fn crc32_of(data: Seq<u8>) -> u32;

/// Relies on `crc32fast::hash`: the CRC-32 of the bytes, a function of the
/// bytes alone; the CRC-32 of no bytes is 0.
#[verifier::external_body]
fn crc32_hash(data: &[u8]) -> (r: u32)
    ensures
        r == crc32_of(data@),
        data@.len() == 0 ==> r == 0,
{
    crc32fast::hash(data)
}

/// The CRC-32 checksum of `data`.
pub fn calculate_crc32(data: &[u8]) -> (r: u32)
    ensures
        r == crc32_of(data@),
        data@.len() == 0 ==> r == 0,
{
    crc32_hash(data)
}

/// Same checksum as `calculate_crc32`, under the name used for hashing.
pub fn calculate_hash(data: &[u8]) -> (r: u32)
    ensures
        r == crc32_of(data@),
{
    crc32_hash(data)
}

/// An owned copy of `data`.
pub fn internal_hash_helper(data: &[u8]) -> (r: Vec<u8>)
    ensures
        r@ == data@,
{
    copy_bytes(data)
}

/// Copies a byte slice into a fresh vector.
pub fn copy_bytes(data: &[u8]) -> (r: Vec<u8>)
    ensures
        r@ == data@,
{
    let mut out: Vec<u8> = Vec::new();
    let mut i: usize = 0;
    while i < data.len()
        invariant
            i <= data@.len(),
            out@ == data@.subrange(0, i as int),
        decreases data@.len() - i,
    {
        out.push(data[i]);
        i = i + 1;
    }
    assert(out@ =~= data@);
    out
}

} // verus!
