use vstd::prelude::*;

verus! {

/// The field of the wire layout at which decoding stopped: its tag was out
/// of range, its length ran past the end of the buffer, its text was not
/// UTF-8, or the buffer ended before it.
#[derive(Clone, Copy, Debug, PartialEq, Eq, Structural)]
pub enum DecodeFault {
    Kind,
    MessageId,
    UserId,
    ReactionKind,
    Payload,
    SerializedFlag,
    Crc,
}

/// What can go wrong while building, reading or decoding a packet.
#[derive(Clone, Copy, Debug, PartialEq, Eq, Structural)]
pub enum PacketError {
    /// The LZ4 encoder reported a failure. Encoding into memory does not
    /// fail, so `compress` and packet construction never return it.
    CompressionFailure,
    /// The stored payload is not a frame the decoder can read.
    DecompressionFailure,
    /// The wire bytes do not hold a packet; the fault names the field.
    DecodeError(DecodeFault),
}

/// The description of each error.
pub open spec fn error_text(e: PacketError) -> Seq<char> {
    match e {
        PacketError::CompressionFailure => "compression failed"@,
        PacketError::DecompressionFailure => "decompression failed: not a readable LZ4 frame"@,
        PacketError::DecodeError(DecodeFault::Kind) => "Failed to deserialize packet: bad or missing kind"@,
        PacketError::DecodeError(DecodeFault::MessageId) => "Failed to deserialize packet: bad or missing message id"@,
        PacketError::DecodeError(DecodeFault::UserId) => "Failed to deserialize packet: bad or missing user id"@,
        PacketError::DecodeError(DecodeFault::ReactionKind) => "Failed to deserialize packet: bad or missing reaction kind"@,
        PacketError::DecodeError(DecodeFault::Payload) => "Failed to deserialize packet: bad or missing payload"@,
        PacketError::DecodeError(DecodeFault::SerializedFlag) => "Failed to deserialize packet: bad or missing serialized flag"@,
        PacketError::DecodeError(DecodeFault::Crc) => "Failed to deserialize packet: bad or missing crc"@,
    }
}

impl PacketError {
    /// A short description of the error.
    pub fn message(&self) -> (r: &'static str)
        ensures
            r@ == error_text(*self),
    {
        match self {
            PacketError::CompressionFailure => "compression failed",
            PacketError::DecompressionFailure => "decompression failed: not a readable LZ4 frame",
            PacketError::DecodeError(DecodeFault::Kind) => "Failed to deserialize packet: bad or missing kind",
            PacketError::DecodeError(DecodeFault::MessageId) => "Failed to deserialize packet: bad or missing message id",
            PacketError::DecodeError(DecodeFault::UserId) => "Failed to deserialize packet: bad or missing user id",
            PacketError::DecodeError(DecodeFault::ReactionKind) => "Failed to deserialize packet: bad or missing reaction kind",
            PacketError::DecodeError(DecodeFault::Payload) => "Failed to deserialize packet: bad or missing payload",
            PacketError::DecodeError(DecodeFault::SerializedFlag) => "Failed to deserialize packet: bad or missing serialized flag",
            PacketError::DecodeError(DecodeFault::Crc) => "Failed to deserialize packet: bad or missing crc",
        }
    }
}

} // verus!
