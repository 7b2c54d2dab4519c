use rust_wasm::compression::{compress, decompress};
use rust_wasm::error::PacketError;
use rust_wasm::{calculate_crc32, calculate_hash, internal_hash_helper};

#[test]
fn crc_known_values() {
    assert_eq!(calculate_crc32(b""), 0);
    assert_eq!(calculate_crc32(b"123456789"), 0xCBF4_3926);
    assert_eq!(calculate_hash(b"123456789"), 0xCBF4_3926);
}

#[test]
fn crc_is_deterministic() {
    let data = b"the same bytes every time".to_vec();
    let a = calculate_crc32(&data);
    let b = calculate_crc32(&data.clone());
    assert_eq!(a, b);
    assert_eq!(a, calculate_hash(&data));
}

#[test]
fn crc_detects_single_byte_changes() {
    let raw: Vec<u8> = (0..200u32).map(|i| (i * 7 % 13) as u8).collect();
    let frame = compress(&raw).unwrap();
    let base = calculate_crc32(&frame);
    let mut changed = 0;
    let mut total = 0;
    for pos in 0..frame.len() {
        for delta in [1u8, 0x80, 0xff] {
            let mut flipped = frame.clone();
            flipped[pos] ^= delta;
            total += 1;
            if calculate_crc32(&flipped) != base {
                changed += 1;
            }
        }
    }
    assert_eq!(changed, total);
}

#[test]
fn hash_helper_copies() {
    assert_eq!(internal_hash_helper(b"abc"), b"abc".to_vec());
    assert_eq!(internal_hash_helper(b""), Vec::<u8>::new());
}

#[test]
fn compressed_frame_outline() {
    for raw in [Vec::new(), b"some bytes".to_vec()] {
        let frame = compress(&raw).unwrap();
        assert!(frame.len() >= 11);
        assert_eq!(&frame[..4], &[0x04, 0x22, 0x4D, 0x18]);
        assert_eq!(&frame[frame.len() - 4..], &[0, 0, 0, 0]);
    }
}

#[test]
fn compress_round_trip() {
    for raw in [Vec::new(), b"x".to_vec(), b"hello world hello world".to_vec(), vec![7u8; 100_000]] {
        let frame = compress(&raw).unwrap();
        assert_ne!(frame, raw);
        assert_eq!(decompress(&frame).unwrap(), raw);
    }
}

#[test]
fn compress_shrinks_repetitive_input() {
    let raw = b"hello world ".repeat(100);
    let frame = compress(&raw).unwrap();
    assert!(frame.len() < raw.len());
}

#[test]
fn decompress_rejects_corrupt_frame() {
    assert_eq!(decompress(b"not a frame"), Err(PacketError::DecompressionFailure));
    assert_eq!(decompress(b""), Err(PacketError::DecompressionFailure));
    assert_eq!(decompress(&[0x04, 0x22, 0x4D, 0x18]), Err(PacketError::DecompressionFailure));
    let whole = compress(b"abc").unwrap();
    assert_eq!(decompress(&whole[..whole.len() - 2]), Err(PacketError::DecompressionFailure));
    let frame = compress(b"some payload bytes").unwrap();
    assert_eq!(
        decompress(&frame[..frame.len() - 8]),
        Err(PacketError::DecompressionFailure)
    );
}
