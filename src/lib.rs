//! Tagged, integrity-checked, compressed packets and their wire format.
//!
//! The library builds packets from raw bytes (the payload is stored as an
//! LZ4 frame and protected by a CRC-32 computed over that frame), encodes
//! them into a flat binary layout and decodes them back.

pub mod checksum;
pub mod compression;
pub mod demo;
pub mod error;
pub mod packet;
pub mod protocol;
pub mod wire;

pub use checksum::{calculate_crc32, calculate_hash, internal_hash_helper};
pub use demo::{add, calculate_factorial, complex_operation, fibonacci_sequence};
