//! A plain record of a one-byte kind and uncompressed payload bytes.
//!
//! Two layouts: `to_bytes` writes the kind byte followed by the payload;
//! `serde_serialize` writes the kind byte, a varint payload length
//! (see `crate::wire`) and the payload, and `serde_deserialize` reads that
//! layout back, ignoring bytes after the payload.
use crate::checksum::copy_bytes;
use crate::error::{DecodeFault, PacketError};
use crate::wire::{lemma_varint_round_trip, parse_varint, push_varint, read_varint, varint_bytes};
use vstd::prelude::*;

verus! {

/// The framed layout of a record.
pub open spec fn record_bytes(kind: u8, payload: Seq<u8>) -> Seq<u8> {
    seq![kind] + (varint_bytes(payload.len()) + payload)
}

/// The record that framed bytes hold, or the field at which reading stopped.
pub open spec fn parse_record(s: Seq<u8>) -> Result<(u8, Seq<u8>), DecodeFault> {
    if s.len() == 0 {
        Err(DecodeFault::Kind)
    } else {
        match parse_varint(s.drop_first()) {
            Some((n, rest)) => if n <= rest.len() {
                Ok((s[0], rest.take(n as int)))
            } else {
                Err(DecodeFault::Payload)
            },
            None => Err(DecodeFault::Payload),
        }
    }
}

/// Reading back the framed layout of a record gives the record back.
pub proof fn lemma_record_round_trip(kind: u8, payload: Seq<u8>)
    requires
        payload.len() < 0x1_0000_0000_0000_0000,
    ensures
        parse_record(record_bytes(kind, payload)) == Ok::<(u8, Seq<u8>), DecodeFault>((kind, payload)),
{
    let s = record_bytes(kind, payload);
    assert(s.drop_first() =~= varint_bytes(payload.len()) + (payload + Seq::<u8>::empty()));
    lemma_varint_round_trip(payload.len(), payload + Seq::<u8>::empty());
    assert((payload + Seq::<u8>::empty()).take(payload.len() as int) =~= payload);
}

/// A kind byte and its payload.
pub struct Packet {
    kind: u8,
    payload: Vec<u8>,
}

impl View for Packet {
    type V = (u8, Seq<u8>);

    closed spec fn view(&self) -> (u8, Seq<u8>) {
        (self.kind, self.payload@)
    }
}

impl Packet {
    pub fn new(kind: u8, payload: Vec<u8>) -> (r: Self)
        ensures
            r@ == (kind, payload@),
    {
        Self { kind, payload }
    }

    pub fn kind(&self) -> (r: u8)
        ensures
            r == self@.0,
    {
        self.kind
    }

    pub fn payload(&self) -> (r: &[u8])
        ensures
            r@ == self@.1,
    {
        self.payload.as_slice()
    }

    /// The framed layout of this record.
    pub fn serde_serialize(&self) -> (r: Result<Vec<u8>, PacketError>)
        ensures
            r matches Ok(b) && b@ == record_bytes(self@.0, self@.1),
    {
        let mut out: Vec<u8> = Vec::new();
        out.push(self.kind);
        push_varint(&mut out, self.payload.len() as u64);
        let mut i: usize = 0;
        let ghost head = out@;
        while i < self.payload.len()
            invariant
                i <= self.payload@.len(),
                out@ == head + self.payload@.subrange(0, i as int),
            decreases self.payload@.len() - i,
        {
            out.push(self.payload[i]);
            i = i + 1;
            assert(out@ =~= head + self.payload@.subrange(0, i as int));
        }
        assert(out@ =~= record_bytes(self@.0, self@.1));
        Ok(out)
    }

    /// Reads a record from its framed layout.
    pub fn serde_deserialize(bytes: &[u8]) -> (r: Result<Self, PacketError>)
        ensures
            match parse_record(bytes@) {
                Err(f) => r == Err::<Packet, PacketError>(PacketError::DecodeError(f)),
                Ok(v) => r matches Ok(p) && p@ == v,
            },
    {
        if bytes.len() == 0 {
            return Err(PacketError::DecodeError(DecodeFault::Kind));
        }
        assert(bytes@.subrange(1, bytes@.len() as int) =~= bytes@.drop_first());
        match read_varint(bytes, 1) {
            None => Err(PacketError::DecodeError(DecodeFault::Payload)),
            Some((n, p)) => {
                if n > (bytes.len() - p) as u64 {
                    return Err(PacketError::DecodeError(DecodeFault::Payload));
                }
                let end = p + n as usize;
                let mut payload: Vec<u8> = Vec::new();
                let mut i: usize = p;
                while i < end
                    invariant
                        p <= i <= end <= bytes@.len(),
                        payload@ == bytes@.subrange(p as int, i as int),
                    decreases end - i,
                {
                    payload.push(bytes[i]);
                    i = i + 1;
                    assert(payload@ =~= bytes@.subrange(p as int, i as int));
                }
                assert(bytes@.subrange(p as int, bytes@.len() as int).take(n as int) =~= payload@);
                Ok(Packet { kind: bytes[0], payload })
            },
        }
    }
}

/// A record as handed to host code.
pub struct WasmPacket {
    inner: Packet,
}

impl View for WasmPacket {
    type V = (u8, Seq<u8>);

    closed spec fn view(&self) -> (u8, Seq<u8>) {
        self.inner@
    }
}

impl WasmPacket {
    pub fn new(kind: u8, payload: Vec<u8>) -> (r: WasmPacket)
        ensures
            r@ == (kind, payload@),
    {
        WasmPacket { inner: Packet::new(kind, payload) }
    }

    pub fn kind(&self) -> (r: u8)
        ensures
            r == self@.0,
    {
        self.inner.kind()
    }

    /// A copy of the payload.
    pub fn payload(&self) -> (r: Vec<u8>)
        ensures
            r@ == self@.1,
    {
        copy_bytes(self.inner.payload())
    }

    /// The kind byte followed by the payload.
    pub fn to_bytes(&self) -> (r: Vec<u8>)
        ensures
            r@ == seq![self@.0] + self@.1,
    {
        let mut bytes: Vec<u8> = Vec::new();
        bytes.push(self.inner.kind);
        let payload = self.inner.payload();
        let mut i: usize = 0;
        while i < payload.len()
            invariant
                i <= payload@.len(),
                payload@ == self@.1,
                bytes@ == seq![self@.0] + payload@.subrange(0, i as int),
            decreases payload@.len() - i,
        {
            bytes.push(payload[i]);
            i = i + 1;
            assert(bytes@ =~= seq![self@.0] + payload@.subrange(0, i as int));
        }
        assert(payload@.subrange(0, i as int) =~= payload@);
        bytes
    }
}

} // verus!
