use token_sale::identity::{Identity, IDENTITY_LEN};
use token_sale::wire::{read_le, write_le};

#[test]
fn identity_has_thirty_two_bytes() {
    assert_eq!(IDENTITY_LEN, 32);
    assert_eq!(Identity::from_bytes([3; 32]).to_bytes().len(), 32);
}

#[test]
fn bytes_round_trip() {
    let mut bytes = [0u8; 32];
    for (at, byte) in bytes.iter_mut().enumerate() {
        *byte = (at as u8).wrapping_mul(37).wrapping_add(11);
    }
    assert_eq!(Identity::from_bytes(bytes).to_bytes(), bytes);
    assert_eq!(Identity::from_bytes([0; 32]).to_bytes(), [0; 32]);
    assert_eq!(Identity::from_bytes([255; 32]).to_bytes(), [255; 32]);
}

#[test]
fn halves_are_little_endian() {
    let mut bytes = [0u8; 32];
    bytes[0] = 1;
    bytes[1] = 2;
    bytes[16] = 3;
    bytes[31] = 4;
    let id = Identity::from_bytes(bytes);
    assert_eq!(id.lo, 0x0201);
    assert_eq!(id.hi, 3 + (4u128 << 120));
    assert_eq!(Identity { lo: 0x0201, hi: 3 + (4u128 << 120) }.to_bytes(), bytes);
}

#[test]
fn equal_bytes_make_equal_identities() {
    assert_eq!(Identity::from_bytes([5; 32]), Identity::from_bytes([5; 32]));
    assert_ne!(Identity::from_bytes([5; 32]), Identity::from_bytes([6; 32]));
    let mut bytes = [5u8; 32];
    bytes[17] = 6;
    assert_ne!(Identity::from_bytes([5; 32]), Identity::from_bytes(bytes));
}

#[test]
fn read_and_write_at_an_offset() {
    let mut out = vec![0xeeu8, 0xee];
    let id = Identity::from_bytes([9; 32]);
    id.write(&mut out);
    assert_eq!(out.len(), 34);
    assert_eq!(&out[..2], &[0xee, 0xee]);
    assert_eq!(&out[2..], &[9u8; 32]);
    assert_eq!(Identity::read(&out, 2), id);
}

#[test]
fn write_le_is_least_significant_byte_first() {
    let mut out = vec![7u8];
    write_le(&mut out, 0x0102_0304, 4);
    assert_eq!(out, vec![7, 4, 3, 2, 1]);
    let mut out = Vec::new();
    write_le(&mut out, 0x1_0000_00ff, 4);
    assert_eq!(out, vec![0xff, 0, 0, 0]);
    let mut out = Vec::new();
    write_le(&mut out, 5, 0);
    assert!(out.is_empty());
    let mut out = Vec::new();
    write_le(&mut out, u128::MAX, 16);
    assert_eq!(out, vec![255u8; 16]);
    let mut out = Vec::new();
    write_le(&mut out, 1, 18);
    assert_eq!(out.len(), 18);
    assert_eq!(out[0], 1);
    assert_eq!(&out[1..], &[0u8; 17]);
}

#[test]
fn read_le_is_least_significant_byte_first() {
    let bytes = [9u8, 4, 3, 2, 1, 9];
    assert_eq!(read_le(&bytes, 1, 4), 0x0102_0304);
    assert_eq!(read_le(&bytes, 0, 0), 0);
    assert_eq!(read_le(&bytes, 5, 1), 9);
    assert_eq!(read_le(&[255u8; 16], 0, 16), u128::MAX);
    assert_eq!(read_le(&1_700_000_000u64.to_le_bytes(), 0, 8), 1_700_000_000);
}
