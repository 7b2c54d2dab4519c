use rust_wasm::error::{DecodeFault, PacketError};
use rust_wasm::protocol::{Packet, WasmPacket};

#[test]
fn record_accessors() {
    let p = Packet::new(7, vec![1, 2, 3]);
    assert_eq!(p.kind(), 7);
    assert_eq!(p.payload(), &[1, 2, 3]);
    let w = WasmPacket::new(9, vec![4, 5]);
    assert_eq!(w.kind(), 9);
    assert_eq!(w.payload(), vec![4, 5]);
    assert_eq!(w.to_bytes(), vec![9, 4, 5]);
    assert_eq!(WasmPacket::new(1, vec![]).to_bytes(), vec![1]);
}

#[test]
fn record_round_trip() {
    for len in [0usize, 1, 250, 251, 65_535, 65_536] {
        let payload: Vec<u8> = (0..len).map(|i| (i % 256) as u8).collect();
        let p = Packet::new(200, payload.clone());
        let bytes = p.serde_serialize().unwrap();
        let expected =
            bincode::encode_to_vec((200u8, payload.clone()), bincode::config::standard()).unwrap();
        assert_eq!(bytes, expected);
        let q = Packet::serde_deserialize(&bytes).unwrap();
        assert_eq!(q.kind(), 200);
        assert_eq!(q.payload(), &payload[..]);
    }
}

#[test]
fn record_decode_errors() {
    assert!(matches!(
        Packet::serde_deserialize(&[]),
        Err(PacketError::DecodeError(DecodeFault::Kind))
    ));
    assert!(matches!(
        Packet::serde_deserialize(&[1]),
        Err(PacketError::DecodeError(DecodeFault::Payload))
    ));
    assert!(matches!(Packet::serde_deserialize(&[1, 3, 0, 0]), Err(PacketError::DecodeError(_))));
    assert!(matches!(Packet::serde_deserialize(&[1, 254, 0]), Err(PacketError::DecodeError(_))));
    let q = Packet::serde_deserialize(&[1, 2, 8, 9, 10]).unwrap();
    assert_eq!(q.payload(), &[8, 9]);
}
