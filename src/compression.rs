//! LZ4 frame compression of byte buffers.
use crate::error::PacketError;
use std::io::Read;
use std::io::Write;
use vstd::prelude::*;

verus! {

#[verifier::external_type_specification]
#[verifier::external_body]
pub struct ExIoError(std::io::Error);

/// The LZ4 frame that `lz4_flex`'s frame encoder, with its default frame
/// settings, writes for a byte sequence.
pub uninterp spec fn lz4_frame_of(data: Seq<u8>) -> Seq<u8>;

/// The outline of an LZ4 frame written with the default settings: at least
/// 11 bytes (a 7-byte header and a 4-byte end mark), starting with the magic
/// number `04 22 4D 18` and ending with the end mark `00 00 00 00`.
pub open spec fn frame_shape(f: Seq<u8>) -> bool {
    &&& f.len() >= 11
    &&& f[0] == 0x04u8 && f[1] == 0x22u8 && f[2] == 0x4Du8 && f[3] == 0x18u8
    &&& f[f.len() - 4] == 0u8 && f[f.len() - 3] == 0u8 && f[f.len() - 2] == 0u8 && f[f.len() - 1]
        == 0u8
}

/// What `lz4_flex`'s frame decoder reads from a byte sequence: the
/// decompressed bytes, or `None` where it reports an error.
pub uninterp spec fn lz4_unframe_of(frame: Seq<u8>) -> Option<Seq<u8>>;

/// Relies on `lz4_flex::frame::FrameEncoder` (`write_all`, then `finish`)
/// writing into a vector: the vector holds the LZ4 frame of the input, which
/// depends on the input alone. It always succeeds: writes into a vector do
/// not fail, the header and block buffers are sized for the largest header
/// and block, and the default frame settings declare no content size. The
/// frame opens with the magic number and a 3-byte descriptor and closes
/// with the end mark (the default settings write no content checksum).
#[verifier::external_body]
fn lz4_frame_encode(data: &[u8]) -> (r: Result<Vec<u8>, std::io::Error>)
    ensures
        r is Ok,
        r matches Ok(c) ==> c@ == lz4_frame_of(data@) && frame_shape(c@),
{
    let mut encoder = lz4_flex::frame::FrameEncoder::new(Vec::new());
    encoder.write_all(data)?;
    encoder.finish().map_err(std::io::Error::from)
}

/// Relies on `lz4_flex::frame::FrameDecoder` (`read_to_end`) reading from a
/// byte slice: the outcome depends on the bytes alone, and a frame that the
/// frame encoder wrote for some bytes is read back as exactly those bytes.
#[verifier::external_body]
fn lz4_frame_decode(frame: &[u8]) -> (r: Result<Vec<u8>, std::io::Error>)
    ensures
        r is Ok <==> lz4_unframe_of(frame@) is Some,
        r matches Ok(d) ==> lz4_unframe_of(frame@) == Some(d@),
        forall|s: Seq<u8>| #[trigger] lz4_frame_of(s) == frame@ ==> (r is Ok && r->Ok_0@ == s),
{
    let mut decoder = lz4_flex::frame::FrameDecoder::new(frame);
    let mut out = Vec::new();
    decoder.read_to_end(&mut out)?;
    Ok(out)
}

/// Compresses `data` into one LZ4 frame.
pub fn compress(data: &[u8]) -> (r: Result<Vec<u8>, PacketError>)
    ensures
        r is Ok,
        r matches Ok(c) ==> c@ == lz4_frame_of(data@) && frame_shape(c@),
{
    match lz4_frame_encode(data) {
        Ok(c) => Ok(c),
        Err(_) => Err(PacketError::CompressionFailure),
    }
}

/// Decompresses an LZ4 frame. The frame of any byte sequence gives that
/// sequence back. Input without the outline of a frame (too short, no magic
/// number, no end mark) is refused; other input gives what the decoder reads
/// from it, or an error where the decoder reports one.
pub fn decompress(data: &[u8]) -> (r: Result<Vec<u8>, PacketError>)
    ensures
        r is Ok <==> frame_shape(data@) && lz4_unframe_of(data@) is Some,
        r matches Ok(d) ==> lz4_unframe_of(data@) == Some(d@),
        forall|s: Seq<u8>| #[trigger]
            lz4_frame_of(s) == data@ && frame_shape(data@) ==> (r matches Ok(d) && d@ == s),
        r matches Err(e) ==> e == PacketError::DecompressionFailure,
{
    let decoded = lz4_frame_decode(data);
    let n = data.len();
    if n < 11 || data[0] != 0x04 || data[1] != 0x22 || data[2] != 0x4D || data[3] != 0x18 || data[n
        - 4] != 0 || data[n - 3] != 0 || data[n - 2] != 0 || data[n - 1] != 0 {
        return Err(PacketError::DecompressionFailure);
    }
    match decoded {
        Ok(d) => Ok(d),
        Err(_) => Err(PacketError::DecompressionFailure),
    }
}

} // verus!
