//! The persisted form of a sale: one fixed binary record.
//!
//! The record is the terms in a fixed order, the number of buyers in four
//! bytes, and one entry of fifty-six bytes per buyer.  All integers are
//! little-endian; the vesting baseline is in two's complement.

use vstd::prelude::*;
use crate::error::SaleError;
use crate::identity::Identity;
use crate::ledger::TokenSale;
use crate::model::{BuyerInfo, SaleModel, TokenSaleData};
use crate::wire::{
    le_bytes, le_value, lemma_le_bytes_len, lemma_le_bytes_of_value, lemma_le_value_bound,
    lemma_le_value_of_bytes, lemma_pow256_values, read_le, write_le,
};

verus! {

/// Bytes of the record before the buyer entries.
pub const HEADER_LEN: usize = 104;

/// Bytes of one buyer entry.
pub const ENTRY_LEN: usize = 56;

/// A signed integer as the unsigned integer with the same sixty-four bits.
pub open spec fn twos_complement(value: i64) -> nat {
    if value >= 0 {
        value as nat
    } else {
        (value + 0x1_0000_0000_0000_0000) as nat
    }
}

/// The signed integer with the sixty-four bits of `bits`.
pub open spec fn from_twos_complement(bits: nat) -> i64 {
    if bits < 0x8000_0000_0000_0000 {
        bits as i64
    } else {
        (bits - 0x1_0000_0000_0000_0000) as i64
    }
}

/// The byte that stands for a flag.
pub open spec fn flag_byte(flag: bool) -> u8 {
    if flag {
        1
    } else {
        0
    }
}

/// The bytes of the terms of a sale.
pub open spec fn encode_terms(terms: TokenSaleData) -> Seq<u8> {
    terms.admin@ + terms.reserve_account@ + le_bytes(terms.unit_price as nat, 8) + le_bytes(
        terms.total_supply as nat,
        8,
    ) + le_bytes(terms.sold_amount as nat, 8) + seq![
        terms.initial_claimable_percent,
        terms.cliff_months,
        terms.monthly_release_percent,
    ] + le_bytes(twos_complement(terms.vesting_start), 8) + seq![
        flag_byte(terms.claiming_enabled),
    ]
}

/// The bytes of one buyer entry.
pub open spec fn encode_record(record: BuyerInfo) -> Seq<u8> {
    record.owner@ + le_bytes(record.purchased_amount as nat, 8) + le_bytes(
        record.claimable_total as nat,
        8,
    ) + le_bytes(record.claimed_so_far as nat, 8)
}

/// The bytes of the buyer entries, one after the other.
pub open spec fn encode_records(buyers: Seq<BuyerInfo>) -> Seq<u8>
    decreases buyers.len(),
{
    if buyers.len() == 0 {
        Seq::empty()
    } else {
        encode_records(buyers.drop_last()) + encode_record(buyers.last())
    }
}

/// The persisted record of a sale.
pub open spec fn encode(sale: SaleModel) -> Seq<u8> {
    encode_terms(sale.terms) + le_bytes(sale.buyers.len(), 4) + encode_records(sale.buyers)
}

/// The terms that the first hundred bytes of a record spell.
pub open spec fn decode_terms(bytes: Seq<u8>) -> TokenSaleData {
    TokenSaleData {
        admin: Identity::spec_from_bytes(bytes.subrange(0, 32)),
        reserve_account: Identity::spec_from_bytes(bytes.subrange(32, 64)),
        unit_price: le_value(bytes.subrange(64, 72)) as u64,
        total_supply: le_value(bytes.subrange(72, 80)) as u64,
        sold_amount: le_value(bytes.subrange(80, 88)) as u64,
        initial_claimable_percent: bytes[88],
        cliff_months: bytes[89],
        monthly_release_percent: bytes[90],
        vesting_start: from_twos_complement(le_value(bytes.subrange(91, 99))),
        claiming_enabled: bytes[99] == 1,
    }
}

/// The buyer record that fifty-six bytes spell.
pub open spec fn decode_record(bytes: Seq<u8>) -> BuyerInfo {
    BuyerInfo {
        owner: Identity::spec_from_bytes(bytes.subrange(0, 32)),
        purchased_amount: le_value(bytes.subrange(32, 40)) as u64,
        claimable_total: le_value(bytes.subrange(40, 48)) as u64,
        claimed_so_far: le_value(bytes.subrange(48, 56)) as u64,
    }
}

/// The bytes of the entry number `at` of a record.
pub open spec fn entry_bytes(bytes: Seq<u8>, at: int) -> Seq<u8> {
    bytes.subrange(104 + 56 * at, 104 + 56 * at + 56)
}

/// The number of buyers that a record announces.
pub open spec fn announced_count(bytes: Seq<u8>) -> nat {
    le_value(bytes.subrange(100, 104))
}

/// Whether `bytes` have the shape of a record: a header with a proper flag
/// byte, and exactly as many entries as announced.
pub open spec fn well_shaped(bytes: Seq<u8>) -> bool {
    &&& bytes.len() >= 104
    &&& bytes[99] <= 1
    &&& bytes.len() == 104 + 56 * announced_count(bytes)
}

/// What a well-shaped record spells.
pub open spec fn decode_shape(bytes: Seq<u8>) -> SaleModel {
    SaleModel {
        terms: decode_terms(bytes),
        buyers: Seq::new(announced_count(bytes), |at: int| decode_record(entry_bytes(bytes, at))),
    }
}

/// The sale that `bytes` persist: none if the bytes do not have the shape
/// of a record or spell a sale that breaks the invariant.
pub open spec fn decode(bytes: Seq<u8>) -> Option<SaleModel> {
    if well_shaped(bytes) && decode_shape(bytes).valid() {
        Some(decode_shape(bytes))
    } else {
        None
    }
}

/// Two's complement loses nothing.
pub proof fn lemma_twos_complement(value: i64)
    ensures
        twos_complement(value) < 0x1_0000_0000_0000_0000,
        from_twos_complement(twos_complement(value)) == value,
{
}

/// Every unsigned value of sixty-four bits is the two's complement of the
/// signed integer it decodes to.
pub proof fn lemma_from_twos_complement(bits: nat)
    requires
        bits < 0x1_0000_0000_0000_0000,
    ensures
        twos_complement(from_twos_complement(bits)) == bits,
{
}

/// The terms take a hundred bytes.
pub proof fn lemma_encode_terms_len(terms: TokenSaleData)
    ensures
        encode_terms(terms).len() == 100,
{
    terms.admin.lemma_view_len();
    terms.reserve_account.lemma_view_len();
    lemma_le_bytes_len(terms.unit_price as nat, 8);
    lemma_le_bytes_len(terms.total_supply as nat, 8);
    lemma_le_bytes_len(terms.sold_amount as nat, 8);
    lemma_le_bytes_len(twos_complement(terms.vesting_start), 8);
}

/// An entry takes fifty-six bytes.
pub proof fn lemma_encode_record_len(record: BuyerInfo)
    ensures
        encode_record(record).len() == 56,
{
    record.owner.lemma_view_len();
    lemma_le_bytes_len(record.purchased_amount as nat, 8);
    lemma_le_bytes_len(record.claimable_total as nat, 8);
    lemma_le_bytes_len(record.claimed_so_far as nat, 8);
}

/// The entries take fifty-six bytes each, and the entry of a record starts
/// fifty-six bytes after the one before.
pub proof fn lemma_encode_records_layout(buyers: Seq<BuyerInfo>)
    ensures
        encode_records(buyers).len() == 56 * buyers.len(),
        forall|at: int|
            0 <= at < buyers.len() ==> #[trigger] encode_records(buyers).subrange(
                56 * at,
                56 * at + 56,
            ) == encode_record(buyers[at]),
    decreases buyers.len(),
{
    if buyers.len() > 0 {
        let front = buyers.drop_last();
        lemma_encode_records_layout(front);
        lemma_encode_record_len(buyers.last());
        let all = encode_records(buyers);
        assert forall|at: int| 0 <= at < buyers.len() implies #[trigger] all.subrange(
            56 * at,
            56 * at + 56,
        ) == encode_record(buyers[at]) by {
            if at < front.len() {
                assert(encode_records(front).subrange(56 * at, 56 * at + 56) == encode_record(
                    front[at],
                ));
                assert(all.subrange(56 * at, 56 * at + 56) =~= encode_records(front).subrange(
                    56 * at,
                    56 * at + 56,
                ));
            }
        }
    }
}

/// Decoding the bytes of terms gives the terms back.
pub proof fn lemma_decode_encoded_terms(terms: TokenSaleData, rest: Seq<u8>)
    ensures
        decode_terms(encode_terms(terms) + rest) == terms,
        (encode_terms(terms) + rest)[99] <= 1,
{
    let bytes = encode_terms(terms) + rest;
    lemma_encode_terms_len(terms);
    terms.admin.lemma_view_len();
    terms.reserve_account.lemma_view_len();
    lemma_le_bytes_len(terms.unit_price as nat, 8);
    lemma_le_bytes_len(terms.total_supply as nat, 8);
    lemma_le_bytes_len(terms.sold_amount as nat, 8);
    lemma_le_bytes_len(twos_complement(terms.vesting_start), 8);
    lemma_pow256_values();
    lemma_twos_complement(terms.vesting_start);
    assert(bytes.subrange(0, 32) =~= terms.admin@);
    assert(bytes.subrange(32, 64) =~= terms.reserve_account@);
    assert(bytes.subrange(64, 72) =~= le_bytes(terms.unit_price as nat, 8));
    assert(bytes.subrange(72, 80) =~= le_bytes(terms.total_supply as nat, 8));
    assert(bytes.subrange(80, 88) =~= le_bytes(terms.sold_amount as nat, 8));
    assert(bytes.subrange(91, 99) =~= le_bytes(twos_complement(terms.vesting_start), 8));
    terms.admin.lemma_from_view();
    terms.reserve_account.lemma_from_view();
    lemma_le_value_of_bytes(terms.unit_price as nat, 8);
    lemma_le_value_of_bytes(terms.total_supply as nat, 8);
    lemma_le_value_of_bytes(terms.sold_amount as nat, 8);
    lemma_le_value_of_bytes(twos_complement(terms.vesting_start), 8);
}

/// Decoding the bytes of an entry gives the record back.
pub proof fn lemma_decode_encoded_record(record: BuyerInfo)
    ensures
        decode_record(encode_record(record)) == record,
{
    let bytes = encode_record(record);
    record.owner.lemma_view_len();
    lemma_le_bytes_len(record.purchased_amount as nat, 8);
    lemma_le_bytes_len(record.claimable_total as nat, 8);
    lemma_le_bytes_len(record.claimed_so_far as nat, 8);
    lemma_pow256_values();
    assert(bytes.subrange(0, 32) =~= record.owner@);
    assert(bytes.subrange(32, 40) =~= le_bytes(record.purchased_amount as nat, 8));
    assert(bytes.subrange(40, 48) =~= le_bytes(record.claimable_total as nat, 8));
    assert(bytes.subrange(48, 56) =~= le_bytes(record.claimed_so_far as nat, 8));
    record.owner.lemma_from_view();
    lemma_le_value_of_bytes(record.purchased_amount as nat, 8);
    lemma_le_value_of_bytes(record.claimable_total as nat, 8);
    lemma_le_value_of_bytes(record.claimed_so_far as nat, 8);
}

/// Encoding the record that fifty-six bytes spell gives the bytes back.
pub proof fn lemma_encode_decoded_record(bytes: Seq<u8>)
    requires
        bytes.len() == 56,
    ensures
        encode_record(decode_record(bytes)) == bytes,
{
    let record = decode_record(bytes);
    lemma_pow256_values();
    Identity::lemma_view_of_bytes(bytes.subrange(0, 32));
    lemma_le_value_bound(bytes.subrange(32, 40));
    lemma_le_value_bound(bytes.subrange(40, 48));
    lemma_le_value_bound(bytes.subrange(48, 56));
    lemma_le_bytes_of_value(bytes.subrange(32, 40));
    lemma_le_bytes_of_value(bytes.subrange(40, 48));
    lemma_le_bytes_of_value(bytes.subrange(48, 56));
    assert(encode_record(record) =~= bytes.subrange(0, 32) + bytes.subrange(32, 40)
        + bytes.subrange(40, 48) + bytes.subrange(48, 56));
    assert(bytes.subrange(0, 32) + bytes.subrange(32, 40) + bytes.subrange(40, 48)
        + bytes.subrange(48, 56) =~= bytes);
}

/// Encoding the terms that a hundred bytes with a proper flag byte spell
/// gives the bytes back.
pub proof fn lemma_encode_decoded_terms(bytes: Seq<u8>)
    requires
        bytes.len() >= 100,
        bytes[99] <= 1,
    ensures
        encode_terms(decode_terms(bytes)) == bytes.subrange(0, 100),
{
    lemma_pow256_values();
    Identity::lemma_view_of_bytes(bytes.subrange(0, 32));
    Identity::lemma_view_of_bytes(bytes.subrange(32, 64));
    lemma_le_value_bound(bytes.subrange(64, 72));
    lemma_le_value_bound(bytes.subrange(72, 80));
    lemma_le_value_bound(bytes.subrange(80, 88));
    lemma_le_value_bound(bytes.subrange(91, 99));
    lemma_le_bytes_of_value(bytes.subrange(64, 72));
    lemma_le_bytes_of_value(bytes.subrange(72, 80));
    lemma_le_bytes_of_value(bytes.subrange(80, 88));
    lemma_le_bytes_of_value(bytes.subrange(91, 99));
    lemma_from_twos_complement(le_value(bytes.subrange(91, 99)));
    let pieces = bytes.subrange(0, 32) + bytes.subrange(32, 64) + bytes.subrange(64, 72)
        + bytes.subrange(72, 80) + bytes.subrange(80, 88) + seq![bytes[88], bytes[89], bytes[90]]
        + bytes.subrange(91, 99) + seq![bytes[99]];
}

/// The persisted record of a valid sale decodes to that sale, as long as
/// the number of buyers fits four bytes.
pub proof fn lemma_decode_encode(sale: SaleModel)
    requires
        sale.valid(),
        sale.buyers.len() <= u32::MAX,
    ensures
        decode(encode(sale)) == Some(sale),
{
    let bytes = encode(sale);
    let count = sale.buyers.len();
    let tail = le_bytes(count, 4) + encode_records(sale.buyers);
    lemma_encode_terms_len(sale.terms);
    lemma_le_bytes_len(count, 4);
    lemma_encode_records_layout(sale.buyers);
    lemma_pow256_values();
    lemma_le_value_of_bytes(count, 4);
    assert(bytes =~= encode_terms(sale.terms) + tail);
    lemma_decode_encoded_terms(sale.terms, tail);
    assert(bytes.subrange(100, 104) =~= le_bytes(count, 4));
    let decoded = decode_shape(bytes);
    assert forall|at: int| 0 <= at < count implies decoded.buyers[at] == sale.buyers[at] by {
        assert(entry_bytes(bytes, at) =~= encode_records(sale.buyers).subrange(
            56 * at,
            56 * at + 56,
        ));
        lemma_decode_encoded_record(sale.buyers[at]);
    }
    assert(decoded.buyers =~= sale.buyers);
}

/// The entries of a well-shaped record, encoded again, are the bytes after
/// the header.
proof fn lemma_encode_decoded_records(bytes: Seq<u8>, count: nat)
    requires
        bytes.len() >= 104 + 56 * count,
    ensures
        encode_records(Seq::new(count, |at: int| decode_record(entry_bytes(bytes, at))))
            == bytes.subrange(104, (104 + 56 * count) as int),
    decreases count,
{
    let buyers = Seq::new(count, |at: int| decode_record(entry_bytes(bytes, at)));
    if count > 0 {
        let fewer = (count - 1) as nat;
        let front = Seq::new(fewer, |at: int| decode_record(entry_bytes(bytes, at)));
        lemma_encode_decoded_records(bytes, fewer);
        assert(buyers.drop_last() =~= front);
        lemma_encode_decoded_record(entry_bytes(bytes, fewer as int));
    }
}

/// Whatever decodes to a sale is the persisted record of that sale.
pub proof fn lemma_encode_decode(bytes: Seq<u8>)
    requires
        decode(bytes) is Some,
    ensures
        encode(decode(bytes)->Some_0) == bytes,
{
    let sale = decode_shape(bytes);
    let count = announced_count(bytes);
    lemma_encode_decoded_terms(bytes);
    lemma_encode_decoded_records(bytes, count);
    lemma_le_bytes_of_value(bytes.subrange(100, 104));
    assert(encode(sale) =~= bytes.subrange(0, 100) + bytes.subrange(100, 104) + bytes.subrange(
        104,
        (104 + 56 * count) as int,
    ));
    assert(bytes.subrange(0, 100) + bytes.subrange(100, 104) + bytes.subrange(
        104,
        (104 + 56 * count) as int,
    ) =~= bytes);
}

/// Reads the eight-byte integer of `bytes` at `start`.
fn read_u64(bytes: &[u8], start: usize) -> (value: u64)
    requires
        start + 8 <= bytes@.len(),
    ensures
        value == le_value(bytes@.subrange(start as int, start + 8)),
{
    proof {
        lemma_le_value_bound(bytes@.subrange(start as int, start + 8));
        lemma_pow256_values();
    }
    read_le(bytes, start, 8) as u64
}

/// The unsigned integer with the bits of `value`.
fn to_twos_complement(value: i64) -> (bits: u64)
    ensures
        bits == twos_complement(value),
{
    if value >= 0 {
        value as u64
    } else {
        let lifted: u64 = (value + 1 + 0x7fff_ffff_ffff_ffff) as u64;
        lifted + 0x8000_0000_0000_0000
    }
}

/// The signed integer with the bits of `bits`.
fn of_twos_complement(bits: u64) -> (value: i64)
    ensures
        value == from_twos_complement(bits as nat),
{
    if bits < 0x8000_0000_0000_0000 {
        bits as i64
    } else {
        let lowered: i64 = (bits - 0x8000_0000_0000_0000) as i64;
        lowered - 0x7fff_ffff_ffff_ffff - 1
    }
}

/// Appends the bytes of the terms to `out`.
fn write_terms(out: &mut Vec<u8>, terms: &TokenSaleData)
    ensures
        final(out)@ == old(out)@ + encode_terms(*terms),
{
    terms.admin.write(out);
    terms.reserve_account.write(out);
    write_le(out, terms.unit_price as u128, 8);
    write_le(out, terms.total_supply as u128, 8);
    write_le(out, terms.sold_amount as u128, 8);
    out.push(terms.initial_claimable_percent);
    out.push(terms.cliff_months);
    out.push(terms.monthly_release_percent);
    write_le(out, to_twos_complement(terms.vesting_start) as u128, 8);
    out.push(if terms.claiming_enabled {
        1
    } else {
        0
    });
}

/// Appends the bytes of one buyer entry to `out`.
fn write_record(out: &mut Vec<u8>, record: &BuyerInfo)
    ensures
        final(out)@ == old(out)@ + encode_record(*record),
{
    record.owner.write(out);
    write_le(out, record.purchased_amount as u128, 8);
    write_le(out, record.claimable_total as u128, 8);
    write_le(out, record.claimed_so_far as u128, 8);
}

/// Reads the terms from the first hundred bytes of `bytes`.
fn read_terms(bytes: &[u8]) -> (terms: TokenSaleData)
    requires
        bytes@.len() >= 100,
    ensures
        terms == decode_terms(bytes@),
{
    let flag: u8 = bytes[99];
    TokenSaleData {
        admin: Identity::read(bytes, 0),
        reserve_account: Identity::read(bytes, 32),
        unit_price: read_u64(bytes, 64),
        total_supply: read_u64(bytes, 72),
        sold_amount: read_u64(bytes, 80),
        initial_claimable_percent: bytes[88],
        cliff_months: bytes[89],
        monthly_release_percent: bytes[90],
        vesting_start: of_twos_complement(read_u64(bytes, 91)),
        claiming_enabled: flag == 1,
    }
}

/// Reads the buyer entry of `bytes` that starts at `start`.
fn read_record(bytes: &[u8], start: usize) -> (record: BuyerInfo)
    requires
        start + 56 <= bytes@.len(),
    ensures
        record == decode_record(bytes@.subrange(start as int, start + 56)),
{
    let ghost entry = bytes@.subrange(start as int, start + 56);
    let total: usize = bytes.len();
    proof {
        assert(entry.subrange(0, 32) =~= bytes@.subrange(start as int, start + 32));
        assert(entry.subrange(32, 40) =~= bytes@.subrange(start + 32, start + 32 + 8));
        assert(entry.subrange(40, 48) =~= bytes@.subrange(start + 40, start + 40 + 8));
        assert(entry.subrange(48, 56) =~= bytes@.subrange(start + 48, start + 48 + 8));
    }
    BuyerInfo {
        owner: Identity::read(bytes, start),
        purchased_amount: read_u64(bytes, start + 32),
        claimable_total: read_u64(bytes, start + 40),
        claimed_so_far: read_u64(bytes, start + 48),
    }
}

/// The length that a record announces in its header: the header and one
/// entry for each announced buyer.
pub open spec fn announced_len(bytes: Seq<u8>) -> nat {
    104 + 56 * announced_count(bytes)
}

/// The length of the record at the start of `buffer`, which may be longer
/// than the record; `None` if `buffer` is too short to hold the header or
/// the entries that the header announces.
pub fn record_len(buffer: &[u8]) -> (length: Option<usize>)
    ensures
        match length {
            Some(length) => buffer@.len() >= 104 && length == announced_len(buffer@) && length
                <= buffer@.len(),
            None => buffer@.len() < 104 || announced_len(buffer@) > buffer@.len(),
        },
{
    let total = buffer.len();
    if total < 104 {
        return None;
    }
    proof {
        lemma_le_value_bound(buffer@.subrange(100, 104));
        lemma_pow256_values();
    }
    let count: usize = read_le(buffer, 100, 4) as usize;
    if count > (total - 104) / 56 {
        return None;
    }
    Some(104 + 56 * count)
}

impl TokenSale {
    /// The persisted record of the sale.  Fails with `Overflow` if the
    /// number of buyers does not fit the four bytes of the count.
    pub fn try_to_vec(&self) -> (result: Result<Vec<u8>, SaleError>)
        ensures
            match result {
                Ok(bytes) => self@.buyers.len() <= u32::MAX && bytes@ == encode(self@),
                Err(error) => self@.buyers.len() > u32::MAX && error == SaleError::Overflow,
            },
    {
        let count = self.buyer_count();
        if count > 0xffff_ffff {
            return Err(SaleError::Overflow);
        }
        let terms = self.get_token_sale_data();
        let mut out: Vec<u8> = Vec::new();
        write_terms(&mut out, &terms);
        write_le(&mut out, count as u128, 4);
        let ghost head = out@;
        let mut i: usize = 0;
        while i < count
            invariant
                i <= count,
                count == self@.buyers.len(),
                out@ == head + encode_records(self@.buyers.subrange(0, i as int)),
            decreases count - i,
        {
            match self.buyer_at(i) {
                Some(record) => {
                    write_record(&mut out, &record);
                    proof {
                        let next = self@.buyers.subrange(0, i + 1);
                        assert(next.drop_last() =~= self@.buyers.subrange(0, i as int));
                    }
                },
                None => {},
            }
            i = i + 1;
        }
        assert(self@.buyers.subrange(0, i as int) =~= self@.buyers);
        Ok(out)
    }

    /// The sale that `bytes` persist, or `None` if they persist none: if
    /// they do not have the shape of a record, or spell a sale that breaks
    /// the invariant.
    pub fn unpack(bytes: &[u8]) -> (result: Option<TokenSale>)
        ensures
            match result {
                Some(sale) => sale.wf() && decode(bytes@) == Some(sale@),
                None => decode(bytes@) is None,
            },
    {
        let total = bytes.len();
        if total < 104 {
            return None;
        }
        if bytes[99] > 1 {
            return None;
        }
        proof {
            lemma_le_value_bound(bytes@.subrange(100, 104));
            lemma_pow256_values();
        }
        let count: usize = read_le(bytes, 100, 4) as usize;
        if (total - 104) % 56 != 0 || (total - 104) / 56 != count {
            return None;
        }
        let terms = read_terms(bytes);
        let mut buyers: Vec<BuyerInfo> = Vec::new();
        let mut i: usize = 0;
        while i < count
            invariant
                i <= count,
                count == announced_count(bytes@),
                total == bytes@.len(),
                total == 104 + 56 * count,
                buyers@.len() == i,
                forall|at: int|
                    0 <= at < i ==> #[trigger] buyers@[at] == decode_record(
                        entry_bytes(bytes@, at),
                    ),
            decreases count - i,
        {
            let record = read_record(bytes, 104 + 56 * i);
            buyers.push(record);
            i = i + 1;
        }
        assert(buyers@ =~= decode_shape(bytes@).buyers);
        TokenSale::restore(terms, buyers)
    }
}

} // verus!
