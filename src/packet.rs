//! The packet entity and its wire layout.
//!
//! Wire layout, fields in this order (varints as in `crate::wire`):
//! - kind: varint of the kind's index (see `kind_index`);
//! - message id, user id: one byte 0 (absent) or 1 followed by a varint
//!   byte length and the UTF-8 bytes;
//! - reaction kind: one byte 0 (absent) or 1 followed by a varint of the
//!   reaction's index (see `reaction_index`);
//! - payload: a varint length followed by the compressed bytes;
//! - serialized flag: one byte, 0 or 1;
//! - crc: a varint.
//! The kind, the reaction index and the crc are 32-bit fields: their
//! varints may not take the 8-byte form. Bytes after the crc are ignored.
use crate::checksum::{calculate_crc32, crc32_of};
use crate::compression::{compress, decompress, frame_shape, lz4_frame_of, lz4_unframe_of};
use crate::error::{DecodeFault, PacketError};
use crate::wire::{
    lemma_varint32_round_trip, lemma_varint_round_trip, parse_varint, parse_varint32, push_varint,
    read_varint, read_varint32, varint_bytes,
};
use vstd::prelude::*;
use vstd::utf8::{decode_utf8, encode_utf8, encode_utf8_decode_utf8, encode_utf8_valid_utf8, valid_utf8};

verus! {

/// What a packet is about. The index of each kind on the wire is its
/// position in this list, starting at 0.
#[derive(Clone, Copy, Debug, PartialEq, Eq, Structural)]
pub enum PacketKind {
    Message,
    OnlineUsers,
    Delete,
    Reaction,
    Joined,
    Typing,
}

/// The reaction carried by a reaction packet. The index of each reaction on
/// the wire is its position in this list, starting at 0.
#[derive(Clone, Copy, Debug, PartialEq, Eq, Structural)]
pub enum ReactionKind {
    NoReaction,
    Like,
    Dislike,
    Heart,
    Star,
}

pub open spec fn kind_index(k: PacketKind) -> nat {
    match k {
        PacketKind::Message => 0,
        PacketKind::OnlineUsers => 1,
        PacketKind::Delete => 2,
        PacketKind::Reaction => 3,
        PacketKind::Joined => 4,
        PacketKind::Typing => 5,
    }
}

pub open spec fn kind_of_index(i: nat) -> Option<PacketKind> {
    if i == 0 {
        Some(PacketKind::Message)
    } else if i == 1 {
        Some(PacketKind::OnlineUsers)
    } else if i == 2 {
        Some(PacketKind::Delete)
    } else if i == 3 {
        Some(PacketKind::Reaction)
    } else if i == 4 {
        Some(PacketKind::Joined)
    } else if i == 5 {
        Some(PacketKind::Typing)
    } else {
        None
    }
}

pub open spec fn reaction_index(r: ReactionKind) -> nat {
    match r {
        ReactionKind::NoReaction => 0,
        ReactionKind::Like => 1,
        ReactionKind::Dislike => 2,
        ReactionKind::Heart => 3,
        ReactionKind::Star => 4,
    }
}

pub open spec fn reaction_of_index(i: nat) -> Option<ReactionKind> {
    if i == 0 {
        Some(ReactionKind::NoReaction)
    } else if i == 1 {
        Some(ReactionKind::Like)
    } else if i == 2 {
        Some(ReactionKind::Dislike)
    } else if i == 3 {
        Some(ReactionKind::Heart)
    } else if i == 4 {
        Some(ReactionKind::Star)
    } else {
        None
    }
}

/// The fields of a packet as mathematical values.
pub struct PacketView {
    pub kind: PacketKind,
    pub message_id: Option<Seq<char>>,
    pub user_id: Option<Seq<char>>,
    pub reaction_kind: Option<ReactionKind>,
    /// The payload as stored: an LZ4 frame.
    pub payload: Seq<u8>,
    pub serialized: bool,
    pub crc: u32,
}

pub open spec fn opt_string_view(o: Option<String>) -> Option<Seq<char>> {
    match o {
        Some(s) => Some(s@),
        None => None,
    }
}

/// The view of a packet built from `raw`: the payload is stored as the LZ4
/// frame of `raw`, the crc is taken over that frame, and the flag is clear.
pub open spec fn constructed(
    kind: PacketKind,
    message_id: Option<Seq<char>>,
    user_id: Option<Seq<char>>,
    reaction_kind: Option<ReactionKind>,
    raw: Seq<u8>,
) -> PacketView {
    PacketView {
        kind,
        message_id,
        user_id,
        reaction_kind,
        payload: lz4_frame_of(raw),
        serialized: false,
        crc: crc32_of(lz4_frame_of(raw)),
    }
}

// ---- the layout ----

pub open spec fn flag_byte(b: bool) -> Seq<u8> {
    seq![if b { 1u8 } else { 0u8 }]
}

pub open spec fn string_bytes(s: Seq<char>) -> Seq<u8> {
    varint_bytes(encode_utf8(s).len()) + encode_utf8(s)
}

pub open spec fn opt_string_bytes(o: Option<Seq<char>>) -> Seq<u8> {
    match o {
        None => seq![0u8],
        Some(s) => seq![1u8] + string_bytes(s),
    }
}

pub open spec fn opt_reaction_bytes(o: Option<ReactionKind>) -> Seq<u8> {
    match o {
        None => seq![0u8],
        Some(r) => seq![1u8] + varint_bytes(reaction_index(r)),
    }
}

pub open spec fn payload_bytes(p: Seq<u8>) -> Seq<u8> {
    varint_bytes(p.len()) + p
}

/// The wire bytes of a packet.
pub open spec fn packet_bytes(v: PacketView) -> Seq<u8> {
    varint_bytes(kind_index(v.kind)) + (opt_string_bytes(v.message_id) + (opt_string_bytes(
        v.user_id,
    ) + (opt_reaction_bytes(v.reaction_kind) + (payload_bytes(v.payload) + (flag_byte(
        v.serialized,
    ) + varint_bytes(v.crc as nat))))))
}

// ---- reading the layout back ----

pub open spec fn parse_flag(s: Seq<u8>) -> Option<(bool, Seq<u8>)> {
    if s.len() > 0 && s[0] <= 1 {
        Some((s[0] == 1, s.drop_first()))
    } else {
        None
    }
}

pub open spec fn parse_kind(s: Seq<u8>) -> Option<(PacketKind, Seq<u8>)> {
    match parse_varint32(s) {
        Some((i, rest)) => match kind_of_index(i) {
            Some(k) => Some((k, rest)),
            None => None,
        },
        None => None,
    }
}

pub open spec fn parse_string(s: Seq<u8>) -> Option<(Seq<char>, Seq<u8>)> {
    match parse_varint(s) {
        Some((n, rest)) => if n <= rest.len() && valid_utf8(rest.take(n as int)) {
            Some((decode_utf8(rest.take(n as int)), rest.skip(n as int)))
        } else {
            None
        },
        None => None,
    }
}

pub open spec fn parse_opt_string(s: Seq<u8>) -> Option<(Option<Seq<char>>, Seq<u8>)> {
    match parse_flag(s) {
        Some((false, rest)) => Some((None, rest)),
        Some((true, rest)) => match parse_string(rest) {
            Some((t, rest2)) => Some((Some(t), rest2)),
            None => None,
        },
        None => None,
    }
}

pub open spec fn parse_opt_reaction(s: Seq<u8>) -> Option<(Option<ReactionKind>, Seq<u8>)> {
    match parse_flag(s) {
        Some((false, rest)) => Some((None, rest)),
        Some((true, rest)) => match parse_varint32(rest) {
            Some((i, rest2)) => match reaction_of_index(i) {
                Some(r) => Some((Some(r), rest2)),
                None => None,
            },
            None => None,
        },
        None => None,
    }
}

pub open spec fn parse_payload(s: Seq<u8>) -> Option<(Seq<u8>, Seq<u8>)> {
    match parse_varint(s) {
        Some((n, rest)) => if n <= rest.len() {
            Some((rest.take(n as int), rest.skip(n as int)))
        } else {
            None
        },
        None => None,
    }
}

pub open spec fn parse_crc(s: Seq<u8>) -> Option<(u32, Seq<u8>)> {
    match parse_varint32(s) {
        Some((c, rest)) => if c < 0x1_0000_0000 {
            Some((c as u32, rest))
        } else {
            None
        },
        None => None,
    }
}

/// The packet that wire bytes hold, or the field at which reading stopped.
pub open spec fn parse_packet(s: Seq<u8>) -> Result<PacketView, DecodeFault> {
    match parse_kind(s) {
        None => Err(DecodeFault::Kind),
        Some((kind, s1)) => match parse_opt_string(s1) {
            None => Err(DecodeFault::MessageId),
            Some((message_id, s2)) => match parse_opt_string(s2) {
                None => Err(DecodeFault::UserId),
                Some((user_id, s3)) => match parse_opt_reaction(s3) {
                    None => Err(DecodeFault::ReactionKind),
                    Some((reaction_kind, s4)) => match parse_payload(s4) {
                        None => Err(DecodeFault::Payload),
                        Some((payload, s5)) => match parse_flag(s5) {
                            None => Err(DecodeFault::SerializedFlag),
                            Some((serialized, s6)) => match parse_crc(s6) {
                                None => Err(DecodeFault::Crc),
                                Some((crc, _)) => Ok(
                                    PacketView {
                                        kind,
                                        message_id,
                                        user_id,
                                        reaction_kind,
                                        payload,
                                        serialized,
                                        crc,
                                    },
                                ),
                            },
                        },
                    },
                },
            },
        },
    }
}

/// The smallest number of bytes that can hold a packet: one for each field.
pub const MIN_WIRE_LEN: usize = 7;

/// The lengths of a packet's strings and payload can be written as varints,
/// as they always can for values held in memory.
pub open spec fn fits_wire(v: PacketView) -> bool {
    &&& (v.message_id matches Some(t) ==> encode_utf8(t).len() < 0x1_0000_0000_0000_0000)
    &&& (v.user_id matches Some(t) ==> encode_utf8(t).len() < 0x1_0000_0000_0000_0000)
    &&& v.payload.len() < 0x1_0000_0000_0000_0000
}

proof fn lemma_flag_round_trip(b: bool, rest: Seq<u8>)
    ensures
        parse_flag(flag_byte(b) + rest) == Some((b, rest)),
{
    assert((flag_byte(b) + rest).drop_first() =~= rest);
}

proof fn lemma_string_round_trip(t: Seq<char>, rest: Seq<u8>)
    requires
        encode_utf8(t).len() < 0x1_0000_0000_0000_0000,
    ensures
        parse_string(string_bytes(t) + rest) == Some((t, rest)),
{
    let e = encode_utf8(t);
    assert(string_bytes(t) + rest =~= varint_bytes(e.len()) + (e + rest));
    lemma_varint_round_trip(e.len(), e + rest);
    assert((e + rest).take(e.len() as int) =~= e);
    assert((e + rest).skip(e.len() as int) =~= rest);
    encode_utf8_valid_utf8(t);
    encode_utf8_decode_utf8(t);
}

proof fn lemma_opt_string_round_trip(o: Option<Seq<char>>, rest: Seq<u8>)
    requires
        o matches Some(t) ==> encode_utf8(t).len() < 0x1_0000_0000_0000_0000,
    ensures
        parse_opt_string(opt_string_bytes(o) + rest) == Some((o, rest)),
{
    match o {
        None => {
            lemma_flag_round_trip(false, rest);
        },
        Some(t) => {
            assert(opt_string_bytes(o) + rest =~= flag_byte(true) + (string_bytes(t) + rest));
            lemma_flag_round_trip(true, string_bytes(t) + rest);
            lemma_string_round_trip(t, rest);
        },
    }
}

proof fn lemma_opt_reaction_round_trip(o: Option<ReactionKind>, rest: Seq<u8>)
    ensures
        parse_opt_reaction(opt_reaction_bytes(o) + rest) == Some((o, rest)),
{
    match o {
        None => {
            lemma_flag_round_trip(false, rest);
        },
        Some(r) => {
            let b = varint_bytes(reaction_index(r));
            assert(opt_reaction_bytes(o) + rest =~= flag_byte(true) + (b + rest));
            lemma_flag_round_trip(true, b + rest);
            lemma_varint32_round_trip(reaction_index(r), rest);
        },
    }
}

proof fn lemma_payload_round_trip(p: Seq<u8>, rest: Seq<u8>)
    requires
        p.len() < 0x1_0000_0000_0000_0000,
    ensures
        parse_payload(payload_bytes(p) + rest) == Some((p, rest)),
{
    assert(payload_bytes(p) + rest =~= varint_bytes(p.len()) + (p + rest));
    lemma_varint_round_trip(p.len(), p + rest);
    assert((p + rest).take(p.len() as int) =~= p);
    assert((p + rest).skip(p.len() as int) =~= rest);
}

/// Reading back the wire bytes of a packet gives every field of that packet
/// back, the serialized flag included.
#[verifier::rlimit(40)]
pub proof fn lemma_packet_round_trip(v: PacketView)
    requires
        fits_wire(v),
    ensures
        parse_packet(packet_bytes(v)) == Ok::<PacketView, DecodeFault>(v),
{
    let c = varint_bytes(v.crc as nat);
    let r6 = flag_byte(v.serialized) + c;
    let r5 = payload_bytes(v.payload) + r6;
    let r4 = opt_reaction_bytes(v.reaction_kind) + r5;
    let r3 = opt_string_bytes(v.user_id) + r4;
    let r2 = opt_string_bytes(v.message_id) + r3;
    lemma_varint32_round_trip(kind_index(v.kind), r2);
    lemma_opt_string_round_trip(v.message_id, r3);
    lemma_opt_string_round_trip(v.user_id, r4);
    lemma_opt_reaction_round_trip(v.reaction_kind, r5);
    lemma_payload_round_trip(v.payload, r6);
    lemma_flag_round_trip(v.serialized, c);
    assert(c =~= c + Seq::<u8>::empty());
    lemma_varint32_round_trip(v.crc as nat, Seq::<u8>::empty());
    assert(packet_bytes(v) == varint_bytes(kind_index(v.kind)) + r2);
    assert(parse_kind(packet_bytes(v)) == Some((v.kind, r2)));
    assert(parse_crc(c) == Some((v.crc, Seq::<u8>::empty())));
    assert(parse_opt_string(r2) == Some((v.message_id, r3)));
    assert(parse_opt_string(r3) == Some((v.user_id, r4)));
    assert(parse_opt_reaction(r4) == Some((v.reaction_kind, r5)));
    assert(parse_payload(r5) == Some((v.payload, r6)));
    assert(parse_flag(r6) == Some((v.serialized, c)));
}

/// A packet built from raw bytes and written to the wire (which marks it
/// serialized) is read back with the same kind, ids, reaction kind, stored
/// payload frame (the frame of the raw bytes) and crc, and a clear flag.
pub proof fn lemma_construct_encode_decode(
    kind: PacketKind,
    message_id: Option<Seq<char>>,
    user_id: Option<Seq<char>>,
    reaction_kind: Option<ReactionKind>,
    raw: Seq<u8>,
)
    requires
        fits_wire(constructed(kind, message_id, user_id, reaction_kind, raw)),
    ensures
        ({
            let p = constructed(kind, message_id, user_id, reaction_kind, raw);
            let sent = PacketView { serialized: true, ..p };
            parse_packet(packet_bytes(sent)) matches Ok(q) && PacketView {
                serialized: false,
                ..q
            } == p && q.kind == kind && q.reaction_kind == reaction_kind && q.payload
                == lz4_frame_of(raw)
        }),
{
    let p = constructed(kind, message_id, user_id, reaction_kind, raw);
    lemma_packet_round_trip(PacketView { serialized: true, ..p });
}

proof fn lemma_varint_consumes(s: Seq<u8>)
    ensures
        parse_varint(s) matches Some((_, r)) ==> r.len() < s.len(),
{
}

/// A buffer shorter than `MIN_WIRE_LEN` holds no packet.
pub proof fn lemma_short_buffer_rejected(s: Seq<u8>)
    requires
        s.len() < MIN_WIRE_LEN,
    ensures
        parse_packet(s) is Err,
{
    lemma_varint_consumes(s);
    if let Some((_, s1)) = parse_kind(s) {
        if let Some((_, s2)) = parse_opt_string(s1) {
            if let Some((_, t)) = parse_flag(s1) {
                lemma_varint_consumes(t);
            }
            if let Some((_, s3)) = parse_opt_string(s2) {
                if let Some((_, t)) = parse_flag(s2) {
                    lemma_varint_consumes(t);
                }
                if let Some((_, s4)) = parse_opt_reaction(s3) {
                    if let Some((_, t)) = parse_flag(s3) {
                        lemma_varint_consumes(t);
                    }
                    lemma_varint_consumes(s4);
                    if let Some((_, s5)) = parse_payload(s4) {
                        if let Some((_, s6)) = parse_flag(s5) {
                            lemma_varint_consumes(s6);
                        }
                    }
                }
            }
        }
    }
}

// ---- executable packets ----

/// The packet record.
#[derive(Clone, Debug)]
pub struct Packet {
    pub kind: PacketKind,
    pub message_id: Option<String>,
    pub user_id: Option<String>,
    pub reaction_kind: Option<ReactionKind>,
    /// The payload, stored as an LZ4 frame.
    pub payload: Vec<u8>,
    pub serialized: bool,
    /// CRC-32 of the stored (compressed) payload.
    pub crc: u32,
}

impl View for Packet {
    type V = PacketView;

    open spec fn view(&self) -> PacketView {
        PacketView {
            kind: self.kind,
            message_id: opt_string_view(self.message_id),
            user_id: opt_string_view(self.user_id),
            reaction_kind: self.reaction_kind,
            payload: self.payload@,
            serialized: self.serialized,
            crc: self.crc,
        }
    }
}

pub fn kind_tag(k: PacketKind) -> (r: u64)
    ensures
        r as nat == kind_index(k),
{
    match k {
        PacketKind::Message => 0,
        PacketKind::OnlineUsers => 1,
        PacketKind::Delete => 2,
        PacketKind::Reaction => 3,
        PacketKind::Joined => 4,
        PacketKind::Typing => 5,
    }
}

pub fn kind_from_tag(i: u64) -> (r: Option<PacketKind>)
    ensures
        r == kind_of_index(i as nat),
{
    if i == 0 {
        Some(PacketKind::Message)
    } else if i == 1 {
        Some(PacketKind::OnlineUsers)
    } else if i == 2 {
        Some(PacketKind::Delete)
    } else if i == 3 {
        Some(PacketKind::Reaction)
    } else if i == 4 {
        Some(PacketKind::Joined)
    } else if i == 5 {
        Some(PacketKind::Typing)
    } else {
        None
    }
}

pub fn reaction_tag(r: ReactionKind) -> (t: u64)
    ensures
        t as nat == reaction_index(r),
{
    match r {
        ReactionKind::NoReaction => 0,
        ReactionKind::Like => 1,
        ReactionKind::Dislike => 2,
        ReactionKind::Heart => 3,
        ReactionKind::Star => 4,
    }
}

pub fn reaction_from_tag(i: u64) -> (r: Option<ReactionKind>)
    ensures
        r == reaction_of_index(i as nat),
{
    if i == 0 {
        Some(ReactionKind::NoReaction)
    } else if i == 1 {
        Some(ReactionKind::Like)
    } else if i == 2 {
        Some(ReactionKind::Dislike)
    } else if i == 3 {
        Some(ReactionKind::Heart)
    } else if i == 4 {
        Some(ReactionKind::Star)
    } else {
        None
    }
}

/// Relies on `String::from_utf8`: it accepts exactly the valid UTF-8 byte
/// sequences, and the string then holds the characters they encode.
#[verifier::external_body]
fn string_from_utf8(bytes: Vec<u8>) -> (r: Option<String>)
    ensures
        r is Some <==> valid_utf8(bytes@),
        r matches Some(t) ==> t@ == decode_utf8(bytes@),
{
    String::from_utf8(bytes).ok()
}

fn push_bytes(out: &mut Vec<u8>, b: &[u8])
    ensures
        final(out)@ == old(out)@ + b@,
{
    let mut i: usize = 0;
    while i < b.len()
        invariant
            i <= b@.len(),
            out@ == old(out)@ + b@.subrange(0, i as int),
        decreases b@.len() - i,
    {
        out.push(b[i]);
        i = i + 1;
        assert(out@ =~= old(out)@ + b@.subrange(0, i as int));
    }
    assert(b@.subrange(0, i as int) =~= b@);
}

fn push_opt_string(out: &mut Vec<u8>, o: &Option<String>)
    ensures
        final(out)@ == old(out)@ + opt_string_bytes(opt_string_view(*o)),
        o matches Some(t) ==> encode_utf8(t@).len() < 0x1_0000_0000_0000_0000,
{
    match o {
        None => {
            out.push(0u8);
        },
        Some(t) => {
            out.push(1u8);
            let b = t.as_str().as_bytes();
            push_varint(out, b.len() as u64);
            push_bytes(out, b);
        },
    }
    assert(final(out)@ =~= old(out)@ + opt_string_bytes(opt_string_view(*o)));
}

fn push_opt_reaction(out: &mut Vec<u8>, o: Option<ReactionKind>)
    ensures
        final(out)@ == old(out)@ + opt_reaction_bytes(o),
{
    match o {
        None => {
            out.push(0u8);
        },
        Some(r) => {
            out.push(1u8);
            push_varint(out, reaction_tag(r));
        },
    }
    assert(final(out)@ =~= old(out)@ + opt_reaction_bytes(o));
}

proof fn lemma_concat_assoc(a: Seq<u8>, b: Seq<u8>, c: Seq<u8>)
    ensures
        a + b + c == a + (b + c),
{
    assert(a + b + c =~= a + (b + c));
}

proof fn lemma_concat_nest(
    a: Seq<u8>,
    b: Seq<u8>,
    c: Seq<u8>,
    d: Seq<u8>,
    e: Seq<u8>,
    f: Seq<u8>,
    g: Seq<u8>,
)
    ensures
        a + b + c + d + e + f + g == a + (b + (c + (d + (e + (f + g))))),
{
    assert(a + b + c + d + e + f + g =~= a + (b + (c + (d + (e + (f + g))))));
}

/// The wire bytes of `p`, with the serialized flag written as `flag`.
pub fn encode_packet(p: &Packet, flag: bool) -> (r: Vec<u8>)
    ensures
        r@ == packet_bytes(PacketView { serialized: flag, ..p@ }),
        fits_wire(p@),
{
    let ghost v = PacketView { serialized: flag, ..p@ };
    let ghost a = varint_bytes(kind_index(v.kind));
    let ghost b = opt_string_bytes(v.message_id);
    let ghost c = opt_string_bytes(v.user_id);
    let ghost d = opt_reaction_bytes(v.reaction_kind);
    let ghost e = payload_bytes(v.payload);
    let ghost f = flag_byte(v.serialized);
    let ghost g = varint_bytes(v.crc as nat);
    let mut out: Vec<u8> = Vec::new();
    let payload_len = p.payload.len();
    push_varint(&mut out, kind_tag(p.kind));
    assert(out@ =~= a);
    push_opt_string(&mut out, &p.message_id);
    push_opt_string(&mut out, &p.user_id);
    push_opt_reaction(&mut out, p.reaction_kind);
    let ghost before_payload = out@;
    push_varint(&mut out, payload_len as u64);
    push_bytes(&mut out, p.payload.as_slice());
    proof {
        lemma_concat_assoc(before_payload, varint_bytes(p.payload@.len()), p.payload@);
    }
    let ghost before_flag = out@;
    out.push(if flag { 1u8 } else { 0u8 });
    assert(out@ =~= before_flag + f);
    push_varint(&mut out, p.crc as u64);
    proof {
        lemma_concat_nest(a, b, c, d, e, f, g);
    }
    out
}

/// The bytes of `s` after position `pos`.
pub open spec fn tail(s: Seq<u8>, pos: int) -> Seq<u8> {
    s.subrange(pos, s.len() as int)
}

fn copy_range(s: &[u8], start: usize, end: usize) -> (r: Vec<u8>)
    requires
        start <= end <= s@.len(),
    ensures
        r@ == s@.subrange(start as int, end as int),
{
    let mut out: Vec<u8> = Vec::new();
    let mut i: usize = start;
    while i < end
        invariant
            start <= i <= end <= s@.len(),
            out@ == s@.subrange(start as int, i as int),
        decreases end - i,
    {
        out.push(s[i]);
        i = i + 1;
        assert(out@ =~= s@.subrange(start as int, i as int));
    }
    out
}

fn read_flag(s: &[u8], pos: usize) -> (r: Option<(bool, usize)>)
    requires
        pos <= s@.len(),
    ensures
        match parse_flag(tail(s@, pos as int)) {
            None => r is None,
            Some((b, rest)) => r matches Some((x, q)) && x == b && pos < q <= s@.len() && rest
                == tail(s@, q as int),
        },
{
    if pos < s.len() && s[pos] <= 1 {
        assert(tail(s@, pos as int).drop_first() =~= tail(s@, pos + 1));
        Some((s[pos] == 1, pos + 1))
    } else {
        None
    }
}

fn read_string(s: &[u8], pos: usize) -> (r: Option<(String, usize)>)
    requires
        pos <= s@.len(),
    ensures
        match parse_string(tail(s@, pos as int)) {
            None => r is None,
            Some((t, rest)) => r matches Some((x, q)) && x@ == t && pos < q <= s@.len() && rest
                == tail(s@, q as int),
        },
{
    match read_varint(s, pos) {
        None => None,
        Some((n, p)) => {
            if n > (s.len() - p) as u64 {
                return None;
            }
            let end = p + n as usize;
            let bytes = copy_range(s, p, end);
            assert(tail(s@, p as int).take(n as int) =~= bytes@);
            assert(tail(s@, p as int).skip(n as int) =~= tail(s@, end as int));
            match string_from_utf8(bytes) {
                None => None,
                Some(t) => Some((t, end)),
            }
        },
    }
}

fn read_opt_string(s: &[u8], pos: usize) -> (r: Option<(Option<String>, usize)>)
    requires
        pos <= s@.len(),
    ensures
        match parse_opt_string(tail(s@, pos as int)) {
            None => r is None,
            Some((t, rest)) => r matches Some((x, q)) && opt_string_view(x) == t && pos < q
                <= s@.len() && rest == tail(s@, q as int),
        },
{
    match read_flag(s, pos) {
        None => None,
        Some((false, p)) => Some((None, p)),
        Some((true, p)) => match read_string(s, p) {
            None => None,
            Some((t, q)) => Some((Some(t), q)),
        },
    }
}

fn read_opt_reaction(s: &[u8], pos: usize) -> (r: Option<(Option<ReactionKind>, usize)>)
    requires
        pos <= s@.len(),
    ensures
        match parse_opt_reaction(tail(s@, pos as int)) {
            None => r is None,
            Some((t, rest)) => r matches Some((x, q)) && x == t && pos < q <= s@.len() && rest
                == tail(s@, q as int),
        },
{
    match read_flag(s, pos) {
        None => None,
        Some((false, p)) => Some((None, p)),
        Some((true, p)) => match read_varint32(s, p) {
            None => None,
            Some((i, q)) => match reaction_from_tag(i) {
                None => None,
                Some(k) => Some((Some(k), q)),
            },
        },
    }
}

fn read_payload(s: &[u8], pos: usize) -> (r: Option<(Vec<u8>, usize)>)
    requires
        pos <= s@.len(),
    ensures
        match parse_payload(tail(s@, pos as int)) {
            None => r is None,
            Some((t, rest)) => r matches Some((x, q)) && x@ == t && pos < q <= s@.len() && rest
                == tail(s@, q as int),
        },
{
    match read_varint(s, pos) {
        None => None,
        Some((n, p)) => {
            if n > (s.len() - p) as u64 {
                return None;
            }
            let end = p + n as usize;
            let bytes = copy_range(s, p, end);
            assert(tail(s@, p as int).take(n as int) =~= bytes@);
            assert(tail(s@, p as int).skip(n as int) =~= tail(s@, end as int));
            Some((bytes, end))
        },
    }
}

/// The packet that `s` holds, or the field at which reading stopped.
pub fn decode_packet(s: &[u8]) -> (r: Result<Packet, DecodeFault>)
    ensures
        match parse_packet(s@) {
            Err(f) => r == Err::<Packet, DecodeFault>(f),
            Ok(v) => r matches Ok(q) && q@ == v,
        },
{
    assert(tail(s@, 0) =~= s@);
    let (kind, pos1) = match read_varint32(s, 0) {
        None => return Err(DecodeFault::Kind),
        Some((i, p)) => match kind_from_tag(i) {
            None => return Err(DecodeFault::Kind),
            Some(k) => (k, p),
        },
    };
    let (message_id, pos2) = match read_opt_string(s, pos1) {
        None => return Err(DecodeFault::MessageId),
        Some(x) => x,
    };
    let (user_id, pos3) = match read_opt_string(s, pos2) {
        None => return Err(DecodeFault::UserId),
        Some(x) => x,
    };
    let (reaction_kind, pos4) = match read_opt_reaction(s, pos3) {
        None => return Err(DecodeFault::ReactionKind),
        Some(x) => x,
    };
    let (payload, pos5) = match read_payload(s, pos4) {
        None => return Err(DecodeFault::Payload),
        Some(x) => x,
    };
    let (serialized, pos6) = match read_flag(s, pos5) {
        None => return Err(DecodeFault::SerializedFlag),
        Some(x) => x,
    };
    let crc = match read_varint32(s, pos6) {
        None => return Err(DecodeFault::Crc),
        Some((c, _)) => {
            if c > 0xffff_ffff {
                return Err(DecodeFault::Crc);
            }
            c as u32
        },
    };
    Ok(Packet { kind, message_id, user_id, reaction_kind, payload, serialized, crc })
}

/// A packet as handed to host code.
pub struct WasmPacket {
    inner: Packet,
}

impl View for WasmPacket {
    type V = PacketView;

    closed spec fn view(&self) -> PacketView {
        self.inner@
    }
}

impl WasmPacket {
    /// Builds a packet from raw payload bytes: the payload is compressed
    /// into an LZ4 frame, the crc is taken over that frame and the flag is
    /// clear. The reaction kind is kept whatever the packet kind. Always
    /// succeeds.
    pub fn new(
        kind: PacketKind,
        message_id: Option<String>,
        user_id: Option<String>,
        reaction_kind: Option<ReactionKind>,
        payload: Vec<u8>,
    ) -> (r: Result<WasmPacket, PacketError>)
        ensures
            r is Ok,
            r matches Ok(p) ==> frame_shape(p@.payload),
            r matches Ok(p) ==> p@ == constructed(
                kind,
                opt_string_view(message_id),
                opt_string_view(user_id),
                reaction_kind,
                payload@,
            ),
    {
        let compressed = compress(payload.as_slice())?;
        Ok(WasmPacket::from_compressed(kind, message_id, user_id, reaction_kind, compressed))
    }

    /// Builds a packet around an already compressed payload: the crc is
    /// taken over `compressed` and the flag is clear.
    pub fn from_compressed(
        kind: PacketKind,
        message_id: Option<String>,
        user_id: Option<String>,
        reaction_kind: Option<ReactionKind>,
        compressed: Vec<u8>,
    ) -> (r: WasmPacket)
        ensures
            r@ == (PacketView {
                kind,
                message_id: opt_string_view(message_id),
                user_id: opt_string_view(user_id),
                reaction_kind,
                payload: compressed@,
                serialized: false,
                crc: crc32_of(compressed@),
            }),
    {
        let crc = calculate_crc32(compressed.as_slice());
        WasmPacket {
            inner: Packet {
                kind,
                message_id,
                user_id,
                reaction_kind,
                payload: compressed,
                serialized: false,
                crc,
            },
        }
    }

    pub fn serialized(&self) -> (r: bool)
        ensures
            r == self@.serialized,
    {
        self.inner.serialized
    }

    pub fn message_id(&self) -> (r: Option<String>)
        ensures
            opt_string_view(r) == self@.message_id,
    {
        match &self.inner.message_id {
            Some(t) => Some(t.clone()),
            None => None,
        }
    }

    pub fn user_id(&self) -> (r: Option<String>)
        ensures
            opt_string_view(r) == self@.user_id,
    {
        match &self.inner.user_id {
            Some(t) => Some(t.clone()),
            None => None,
        }
    }

    pub fn kind(&self) -> (r: PacketKind)
        ensures
            r == self@.kind,
    {
        self.inner.kind
    }

    pub fn reaction_kind(&self) -> (r: Option<ReactionKind>)
        ensures
            r == self@.reaction_kind,
    {
        self.inner.reaction_kind
    }

    /// The stored crc.
    pub fn crc(&self) -> (r: u32)
        ensures
            r == self@.crc,
    {
        self.inner.crc
    }

    /// The packet record, with the payload as stored (compressed).
    pub fn packet(&self) -> (r: &Packet)
        ensures
            r@ == self@,
    {
        &self.inner
    }

    /// Whether the stored crc is the CRC-32 of the stored payload.
    pub fn verify(&self) -> (r: bool)
        ensures
            r == (self@.crc == crc32_of(self@.payload)),
    {
        calculate_crc32(self.inner.payload.as_slice()) == self.inner.crc
    }

    /// The payload, decompressed anew on every call: the raw bytes the
    /// packet was built from. A stored payload without the outline of a
    /// frame (as decoding may give) is refused; another one that is not such
    /// a frame reads as whatever the decoder reads from it, or an error where
    /// the decoder reports one. The outcome depends on the stored bytes alone.
    pub fn payload(&self) -> (r: Result<Vec<u8>, PacketError>)
        ensures
            r is Ok <==> frame_shape(self@.payload) && lz4_unframe_of(self@.payload) is Some,
            r matches Ok(d) ==> lz4_unframe_of(self@.payload) == Some(d@),
            forall|s: Seq<u8>| #[trigger]
                lz4_frame_of(s) == self@.payload && frame_shape(self@.payload) ==> (r matches Ok(d)
                    && d@ == s),
            r matches Err(e) ==> e == PacketError::DecompressionFailure,
    {
        decompress(self.inner.payload.as_slice())
    }

    /// The wire bytes of this packet, with the serialized flag written as
    /// set. The packet itself is left as it is.
    pub fn serialize(&self) -> (r: Result<Vec<u8>, PacketError>)
        ensures
            r matches Ok(b) && b@ == packet_bytes(PacketView { serialized: true, ..self@ }),
            fits_wire(self@),
    {
        Ok(encode_packet(&self.inner, true))
    }

    /// Reads a packet from wire bytes; the decoded packet's flag is clear
    /// whatever the bytes held. The crc is not checked (see `verify`).
    pub fn deserialize_static(bytes: &[u8]) -> (r: Result<WasmPacket, PacketError>)
        ensures
            match parse_packet(bytes@) {
                Err(f) => r == Err::<WasmPacket, PacketError>(PacketError::DecodeError(f)),
                Ok(v) => r matches Ok(p) && p@ == PacketView { serialized: false, ..v },
            },
            bytes@.len() < MIN_WIRE_LEN ==> r is Err,
    {
        proof {
            if bytes@.len() < MIN_WIRE_LEN {
                lemma_short_buffer_rejected(bytes@);
            }
        }
        match decode_packet(bytes) {
            Err(f) => Err(PacketError::DecodeError(f)),
            Ok(packet) => {
                let mut inner = packet;
                inner.serialized = false;
                Ok(WasmPacket { inner })
            },
        }
    }
}

} // verus!
