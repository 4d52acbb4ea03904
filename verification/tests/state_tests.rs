use token_sale::identity::Identity;
use token_sale::ledger::TokenSale;
use token_sale::state::{record_len, ENTRY_LEN, HEADER_LEN};

fn id(tag: u8) -> Identity {
    Identity::from_bytes([tag; 32])
}

fn sample() -> TokenSale {
    let mut sale = TokenSale::new(id(1), id(2), 10, 1000, 2, 10, 20).unwrap();
    sale.buy_tokens(&id(7), 100, 1000).unwrap();
    sale.buy_tokens(&id(8), 260, 2600).unwrap();
    sale.enable_claiming(&id(1), 1_700_000_000).unwrap();
    sale.claim_tokens(&id(7), 1_700_000_000 + 3 * 2_592_000, Ok(())).unwrap();
    sale
}

fn sample_bytes() -> Vec<u8> {
    let mut bytes = Vec::new();
    bytes.extend_from_slice(&[1u8; 32]);
    bytes.extend_from_slice(&[2u8; 32]);
    bytes.extend_from_slice(&10u64.to_le_bytes());
    bytes.extend_from_slice(&1000u64.to_le_bytes());
    bytes.extend_from_slice(&360u64.to_le_bytes());
    bytes.push(20);
    bytes.push(2);
    bytes.push(10);
    bytes.extend_from_slice(&1_700_000_000i64.to_le_bytes());
    bytes.push(1);
    bytes.extend_from_slice(&2u32.to_le_bytes());
    bytes.extend_from_slice(&[7u8; 32]);
    bytes.extend_from_slice(&100u64.to_le_bytes());
    bytes.extend_from_slice(&20u64.to_le_bytes());
    bytes.extend_from_slice(&6u64.to_le_bytes());
    bytes.extend_from_slice(&[8u8; 32]);
    bytes.extend_from_slice(&260u64.to_le_bytes());
    bytes.extend_from_slice(&52u64.to_le_bytes());
    bytes.extend_from_slice(&0u64.to_le_bytes());
    bytes
}

#[test]
fn record_lengths() {
    assert_eq!(HEADER_LEN, 32 + 32 + 8 + 8 + 8 + 1 + 1 + 1 + 8 + 1 + 4);
    assert_eq!(ENTRY_LEN, 32 + 8 + 8 + 8);
}

#[test]
fn pack_writes_the_fixed_record() {
    let bytes = sample().try_to_vec().unwrap();
    assert_eq!(bytes.len(), HEADER_LEN + 2 * ENTRY_LEN);
    assert_eq!(bytes, sample_bytes());
}

#[test]
fn pack_of_an_empty_sale_is_the_header() {
    let sale = TokenSale::new(id(1), id(2), 0x0102_0304_0506_0708, 1, 3, 4, 5).unwrap();
    let bytes = sale.try_to_vec().unwrap();
    assert_eq!(bytes.len(), HEADER_LEN);
    assert_eq!(&bytes[64..72], &[8, 7, 6, 5, 4, 3, 2, 1]);
    assert_eq!(&bytes[72..80], &[1, 0, 0, 0, 0, 0, 0, 0]);
    assert_eq!(&bytes[80..88], &[0; 8]);
    assert_eq!(&bytes[88..91], &[5, 3, 4]);
    assert_eq!(&bytes[91..99], &[0; 8]);
    assert_eq!(bytes[99], 0);
    assert_eq!(&bytes[100..104], &[0; 4]);
}

#[test]
fn negative_baseline_is_in_twos_complement() {
    let mut sale = TokenSale::new(id(1), id(2), 1, 1, 0, 0, 0).unwrap();
    sale.enable_claiming(&id(1), -2).unwrap();
    let bytes = sale.try_to_vec().unwrap();
    assert_eq!(&bytes[91..99], &(-2i64).to_le_bytes());
    assert_eq!(&bytes[91..99], &[0xfe, 0xff, 0xff, 0xff, 0xff, 0xff, 0xff, 0xff]);
    let back = TokenSale::unpack(&bytes).unwrap();
    assert_eq!(back.get_token_sale_data().vesting_start, -2);

    let mut sale = TokenSale::new(id(1), id(2), 1, 1, 0, 0, 0).unwrap();
    sale.enable_claiming(&id(1), i64::MIN).unwrap();
    let bytes = sale.try_to_vec().unwrap();
    assert_eq!(&bytes[91..99], &i64::MIN.to_le_bytes());
    assert_eq!(TokenSale::unpack(&bytes).unwrap().get_token_sale_data().vesting_start, i64::MIN);

    let mut sale = TokenSale::new(id(1), id(2), 1, 1, 0, 0, 0).unwrap();
    sale.enable_claiming(&id(1), i64::MAX).unwrap();
    let bytes = sale.try_to_vec().unwrap();
    assert_eq!(&bytes[91..99], &i64::MAX.to_le_bytes());
    assert_eq!(TokenSale::unpack(&bytes).unwrap().get_token_sale_data().vesting_start, i64::MAX);
}

#[test]
fn unpack_reads_the_fixed_record() {
    let sale = TokenSale::unpack(&sample_bytes()).unwrap();
    let expected = sample();
    assert_eq!(sale.get_token_sale_data(), expected.get_token_sale_data());
    assert_eq!(sale.buyer_count(), 2);
    assert_eq!(sale.buyer_at(0), expected.buyer_at(0));
    assert_eq!(sale.buyer_at(1), expected.buyer_at(1));
    assert_eq!(sale.get_buyer_info(&id(8)), expected.get_buyer_info(&id(8)));
}

#[test]
fn unpack_then_pack_gives_the_bytes_back() {
    let bytes = sample_bytes();
    assert_eq!(TokenSale::unpack(&bytes).unwrap().try_to_vec().unwrap(), bytes);
}

#[test]
fn unpacked_sale_carries_on() {
    let mut sale = TokenSale::unpack(&sample_bytes()).unwrap();
    sale.buy_tokens(&id(8), 40, 400).unwrap();
    sale.buy_tokens(&id(9), 1, 10).unwrap();
    assert_eq!(sale.get_buyer_info(&id(8)).unwrap().purchased_amount, 300);
    assert_eq!(sale.buyer_count(), 3);
    assert_eq!(sale.get_token_sale_data().sold_amount, 401);
    assert_eq!(sale.claim_tokens(&id(7), 1_700_000_000 + 4 * 2_592_000, Ok(())), Ok(2));
}

#[test]
fn unpack_rejects_a_short_record() {
    let bytes = sample_bytes();
    assert!(TokenSale::unpack(&[]).is_none());
    assert!(TokenSale::unpack(&bytes[..HEADER_LEN - 1]).is_none());
    assert!(TokenSale::unpack(&bytes[..bytes.len() - 1]).is_none());
    assert!(TokenSale::unpack(&bytes[..HEADER_LEN + ENTRY_LEN]).is_none());
}

#[test]
fn unpack_rejects_a_long_record() {
    let mut bytes = sample_bytes();
    bytes.push(0);
    assert!(TokenSale::unpack(&bytes).is_none());
    bytes.extend_from_slice(&[0u8; 55]);
    assert!(TokenSale::unpack(&bytes).is_none());
}

#[test]
fn unpack_rejects_a_bad_flag() {
    let mut bytes = sample_bytes();
    bytes[99] = 2;
    assert!(TokenSale::unpack(&bytes).is_none());
}

#[test]
fn unpack_rejects_a_sale_that_breaks_the_invariant() {
    // sold counter off by one
    let mut bytes = sample_bytes();
    bytes[80] = bytes[80].wrapping_add(1);
    assert!(TokenSale::unpack(&bytes).is_none());
    // claimed above claimable
    let mut bytes = sample_bytes();
    bytes[HEADER_LEN + 48] = 21;
    assert!(TokenSale::unpack(&bytes).is_none());
    // the same buyer twice
    let mut bytes = sample_bytes();
    for at in 0..32 {
        bytes[HEADER_LEN + ENTRY_LEN + at] = 7;
    }
    assert!(TokenSale::unpack(&bytes).is_none());
    // a percentage above one hundred
    let mut bytes = sample_bytes();
    bytes[88] = 101;
    assert!(TokenSale::unpack(&bytes).is_none());
    let mut bytes = sample_bytes();
    bytes[90] = 101;
    assert!(TokenSale::unpack(&bytes).is_none());
    // a baseline without claiming enabled
    let mut bytes = sample_bytes();
    bytes[99] = 0;
    assert!(TokenSale::unpack(&bytes).is_none());
}

#[test]
fn failed_operations_leave_the_record_byte_for_byte() {
    let mut sale = sample();
    let before = sale.try_to_vec().unwrap();
    assert!(sale.buy_tokens(&id(9), 10, 99).is_err());
    assert!(sale.buy_tokens(&id(9), 0, 99).is_err());
    assert!(sale.enable_claiming(&id(1), 5).is_err());
    assert!(sale.change_token_price(&id(9), 5).is_err());
    assert!(sale.claim_tokens(&id(9), i64::MAX, Ok(())).is_err());
    assert!(sale.claim_tokens(&id(8), 0, Ok(())).is_err());
    assert!(sale.deposit_tokens(&id(9), 1, 1).is_err());
    assert!(sale.withdraw_funds(&id(9), &id(9), 1, 1, 0).is_err());
    assert_eq!(sale.try_to_vec().unwrap(), before);
}

#[test]
fn record_len_reads_the_announced_length() {
    let mut buffer = sample_bytes();
    assert_eq!(record_len(&buffer), Some(HEADER_LEN + 2 * ENTRY_LEN));
    buffer.extend_from_slice(&[0xaa; 100]);
    assert_eq!(record_len(&buffer), Some(HEADER_LEN + 2 * ENTRY_LEN));
    assert_eq!(
        TokenSale::unpack(&buffer[..HEADER_LEN + 2 * ENTRY_LEN]).unwrap().try_to_vec().unwrap(),
        sample_bytes()
    );
    assert_eq!(record_len(&[0u8; 200]), Some(HEADER_LEN));
    assert_eq!(record_len(&[0u8; 104]), Some(HEADER_LEN));
}

#[test]
fn record_len_is_none_for_a_short_buffer() {
    let buffer = sample_bytes();
    assert_eq!(record_len(&[]), None);
    assert_eq!(record_len(&buffer[..HEADER_LEN - 1]), None);
    assert_eq!(record_len(&buffer[..HEADER_LEN]), None);
    assert_eq!(record_len(&buffer[..buffer.len() - 1]), None);
    assert_eq!(record_len(&[0xffu8; 104]), None);
}
