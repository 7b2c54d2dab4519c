use rust_wasm::compression::compress;
use rust_wasm::error::{DecodeFault, PacketError};
use rust_wasm::packet::{PacketKind, ReactionKind, WasmPacket, MIN_WIRE_LEN};
use rust_wasm::calculate_crc32;

fn build(kind: PacketKind, reaction: Option<ReactionKind>, raw: &[u8]) -> WasmPacket {
    WasmPacket::new(kind, None, None, reaction, raw.to_vec()).unwrap()
}

#[test]
fn empty_message_round_trip() {
    let p = build(PacketKind::Message, None, b"");
    let wire = p.serialize().unwrap();
    let q = WasmPacket::deserialize_static(&wire).unwrap();
    assert_eq!(q.kind(), PacketKind::Message);
    assert_eq!(q.reaction_kind(), None);
    assert_eq!(q.payload().unwrap(), Vec::<u8>::new());
    assert_eq!(q.crc(), calculate_crc32(&compress(b"").unwrap()));
    assert_eq!(p.crc(), q.crc());
}

#[test]
fn reaction_round_trip() {
    let raw = b"hello world hello world";
    let p = build(PacketKind::Reaction, Some(ReactionKind::Like), raw);
    let wire = p.serialize().unwrap();
    let q = WasmPacket::deserialize_static(&wire).unwrap();
    assert_eq!(q.kind(), PacketKind::Reaction);
    assert_eq!(q.reaction_kind(), Some(ReactionKind::Like));
    assert_eq!(q.payload().unwrap(), raw.to_vec());
    assert_eq!(p.packet().payload, compress(raw).unwrap());
}

#[test]
fn every_kind_and_reaction_round_trips() {
    let kinds = [
        PacketKind::Message,
        PacketKind::OnlineUsers,
        PacketKind::Delete,
        PacketKind::Reaction,
        PacketKind::Joined,
        PacketKind::Typing,
    ];
    let reactions = [
        None,
        Some(ReactionKind::NoReaction),
        Some(ReactionKind::Like),
        Some(ReactionKind::Dislike),
        Some(ReactionKind::Heart),
        Some(ReactionKind::Star),
    ];
    for kind in kinds {
        for reaction in reactions {
            let raw: Vec<u8> = (0..300u32).map(|i| (i % 251) as u8).collect();
            let p = WasmPacket::new(
                kind,
                Some("msg-1".to_string()),
                Some("user ü".to_string()),
                reaction,
                raw.clone(),
            )
            .unwrap();
            let q = WasmPacket::deserialize_static(&p.serialize().unwrap()).unwrap();
            assert_eq!(q.kind(), kind);
            assert_eq!(q.reaction_kind(), reaction);
            assert_eq!(q.message_id(), Some("msg-1".to_string()));
            assert_eq!(q.user_id(), Some("user ü".to_string()));
            assert_eq!(q.payload().unwrap(), raw);
            assert!(q.verify());
        }
    }
}

#[test]
fn large_payload_round_trip() {
    let raw: Vec<u8> = (0..70_000u32).map(|i| (i.wrapping_mul(2654435761) >> 13) as u8).collect();
    let p = build(PacketKind::Message, None, &raw);
    let q = WasmPacket::deserialize_static(&p.serialize().unwrap()).unwrap();
    assert_eq!(q.payload().unwrap(), raw);
}

#[test]
fn serialized_flag_is_clear_after_new_and_decode() {
    let p = build(PacketKind::Typing, None, b"abc");
    assert!(!p.serialized());
    let wire = p.serialize().unwrap();
    assert!(!p.serialized());
    let q = WasmPacket::deserialize_static(&wire).unwrap();
    assert!(!q.serialized());
}

#[test]
fn wire_layout_matches_bincode_standard() {
    let raw = b"payload".to_vec();
    let p = WasmPacket::new(
        PacketKind::Reaction,
        Some("m".to_string()),
        None,
        Some(ReactionKind::Heart),
        raw.clone(),
    )
    .unwrap();
    let frame = compress(&raw).unwrap();
    let expected = bincode::encode_to_vec(
        (
            3u32,
            Some("m".to_string()),
            None::<String>,
            Some(3u32),
            frame,
            true,
            p.crc(),
        ),
        bincode::config::standard(),
    )
    .unwrap();
    assert_eq!(p.serialize().unwrap(), expected);
}

#[test]
fn one_byte_buffer_is_rejected() {
    assert!(matches!(
        WasmPacket::deserialize_static(&[0x02]),
        Err(PacketError::DecodeError(_))
    ));
}

#[test]
fn short_buffers_are_rejected() {
    let wire = build(PacketKind::Message, None, b"").serialize().unwrap();
    for n in 0..MIN_WIRE_LEN {
        let cut = &wire[..n.min(wire.len())];
        assert!(matches!(
            WasmPacket::deserialize_static(cut),
            Err(PacketError::DecodeError(_))
        ));
    }
    for n in 0..wire.len() {
        assert!(WasmPacket::deserialize_static(&wire[..n]).is_err());
    }
}

#[test]
fn flipped_crc_still_decodes() {
    let p = build(PacketKind::Message, None, b"integrity");
    let mut wire = p.serialize().unwrap();
    let last = wire.len() - 1;
    wire[last] ^= 0x01;
    let q = WasmPacket::deserialize_static(&wire).unwrap();
    assert_eq!(q.payload().unwrap(), b"integrity".to_vec());
    assert_ne!(q.crc(), p.crc());
    assert!(!q.verify());
    assert!(p.verify());
}

#[test]
fn bad_tags_are_rejected() {
    let wire = build(PacketKind::Message, None, b"x").serialize().unwrap();
    let mut bad_kind = wire.clone();
    bad_kind[0] = 6;
    assert!(matches!(WasmPacket::deserialize_static(&bad_kind), Err(PacketError::DecodeError(_))));
    let mut bad_option = wire.clone();
    bad_option[1] = 2;
    assert!(matches!(WasmPacket::deserialize_static(&bad_option), Err(PacketError::DecodeError(_))));
    let mut bad_reaction = wire.clone();
    bad_reaction[3] = 1;
    bad_reaction.insert(4, 5);
    assert!(matches!(WasmPacket::deserialize_static(&bad_reaction), Err(PacketError::DecodeError(_))));
}

#[test]
fn bad_length_and_utf8_are_rejected() {
    // kind, message id of length 200 with only two bytes present
    let too_long = vec![0u8, 1, 200, b'a', b'b', 0, 0, 0, 0, 1, 0];
    assert!(matches!(WasmPacket::deserialize_static(&too_long), Err(PacketError::DecodeError(_))));
    // message id holding an invalid UTF-8 byte
    let bad_utf8 = vec![0u8, 1, 1, 0xff, 0, 0, 0, 0, 0];
    assert!(matches!(WasmPacket::deserialize_static(&bad_utf8), Err(PacketError::DecodeError(_))));
    // the same layout with a valid id decodes
    let good = vec![0u8, 1, 1, b'z', 0, 0, 0, 0, 0];
    let q = WasmPacket::deserialize_static(&good).unwrap();
    assert_eq!(q.message_id(), Some("z".to_string()));
}

#[test]
fn trailing_bytes_are_ignored() {
    let p = build(PacketKind::Joined, None, b"tail");
    let mut wire = p.serialize().unwrap();
    wire.extend_from_slice(&[9, 9, 9]);
    let q = WasmPacket::deserialize_static(&wire).unwrap();
    assert_eq!(q.kind(), PacketKind::Joined);
}

#[test]
fn corrupt_stored_frame_reports_decompression_failure() {
    let p = WasmPacket::from_compressed(PacketKind::Message, None, None, None, b"garbage!".to_vec());
    assert_eq!(p.crc(), calculate_crc32(b"garbage!"));
    assert!(matches!(p.payload(), Err(PacketError::DecompressionFailure)));
}

#[test]
fn error_messages_are_present() {
    assert_eq!(
        PacketError::DecodeError(DecodeFault::Kind).message(),
        "Failed to deserialize packet: bad or missing kind"
    );
    assert_eq!(
        PacketError::DecodeError(DecodeFault::Payload).message(),
        "Failed to deserialize packet: bad or missing payload"
    );
    assert_eq!(PacketError::CompressionFailure.message(), "compression failed");
    assert_eq!(
        PacketError::DecompressionFailure.message(),
        "decompression failed: not a readable LZ4 frame"
    );
}

#[test]
fn decode_faults_name_the_field() {
    let wire = build(PacketKind::Message, None, b"x").serialize().unwrap();
    let mut bad_kind = wire.clone();
    bad_kind[0] = 6;
    assert_eq!(
        WasmPacket::deserialize_static(&bad_kind).err(),
        Some(PacketError::DecodeError(DecodeFault::Kind))
    );
    let mut bad_user = wire.clone();
    bad_user[2] = 7;
    assert_eq!(
        WasmPacket::deserialize_static(&bad_user).err(),
        Some(PacketError::DecodeError(DecodeFault::UserId))
    );
    let mut bad_flag = wire.clone();
    let n = bad_flag.len();
    // the crc of this packet takes 5 bytes, the flag comes just before it
    assert_eq!(bad_flag[n - 5], 252);
    bad_flag[n - 6] = 2;
    assert_eq!(
        WasmPacket::deserialize_static(&bad_flag).err(),
        Some(PacketError::DecodeError(DecodeFault::SerializedFlag))
    );
    let cut = &wire[..n - 1];
    assert_eq!(
        WasmPacket::deserialize_static(cut).err(),
        Some(PacketError::DecodeError(DecodeFault::Crc))
    );
    // a 32-bit field does not take the 8-byte varint form
    let mut long_kind = vec![253u8, 0, 0, 0, 0, 0, 0, 0, 0];
    long_kind.extend_from_slice(&wire[1..]);
    assert_eq!(
        WasmPacket::deserialize_static(&long_kind).err(),
        Some(PacketError::DecodeError(DecodeFault::Kind))
    );
    // the 2-byte form of a small kind index is read
    let mut wide_kind = vec![251u8, 4, 0];
    wide_kind.extend_from_slice(&wire[1..]);
    assert_eq!(WasmPacket::deserialize_static(&wide_kind).unwrap().kind(), PacketKind::Joined);
}

#[test]
fn stored_payload_without_frame_outline_is_refused() {
    for stored in [Vec::new(), vec![0x04, 0x22, 0x4D, 0x18]] {
        let p = WasmPacket::from_compressed(PacketKind::Message, None, None, None, stored);
        assert_eq!(p.payload(), Err(PacketError::DecompressionFailure));
    }
}

#[test]
fn payload_reads_are_repeatable() {
    let p = build(PacketKind::Message, None, b"again and again");
    let q = WasmPacket::deserialize_static(&p.serialize().unwrap()).unwrap();
    assert_eq!(q.payload().unwrap(), q.payload().unwrap());
    let bad = WasmPacket::from_compressed(PacketKind::Message, None, None, None, b"garbage!".to_vec());
    assert_eq!(bad.payload().is_ok(), bad.payload().is_ok());
}

#[test]
fn reaction_kept_on_non_reaction_packet() {
    let p = build(PacketKind::Typing, Some(ReactionKind::Heart), b"");
    assert_eq!(p.kind(), PacketKind::Typing);
    assert_eq!(p.reaction_kind(), Some(ReactionKind::Heart));
    let q = build(PacketKind::Typing, Some(ReactionKind::Heart), b"");
    assert_eq!(p.packet().payload, q.packet().payload);
    assert_eq!(p.crc(), q.crc());
}
