//! The command surface: instructions as bytes, and their dispatch.
//!
//! An instruction is one tag byte and the fixed-width arguments of the
//! operation it names.  Bytes of any other shape are refused before the
//! ledger is looked at.

use vstd::prelude::*;
use crate::error::SaleError;
use crate::identity::Identity;
use crate::ledger::TokenSale;
use crate::model::{InsufficientBalance, Purchase, SaleModel, Withdrawal};
use crate::wire::{
    le_bytes, le_value, lemma_le_bytes_len, lemma_le_bytes_of_value, lemma_le_value_bound,
    lemma_le_value_of_bytes, lemma_pow256_values, read_le, write_le,
};

verus! {

/// Tag of a purchase.
pub const TAG_PURCHASE: u8 = 0;

/// Tag of a claim.
pub const TAG_CLAIM: u8 = 1;

/// Tag of enabling claiming.
pub const TAG_ENABLE_CLAIMING: u8 = 2;

/// Tag of a change of price.
pub const TAG_CHANGE_PRICE: u8 = 3;

/// Tag of a deposit.
pub const TAG_DEPOSIT: u8 = 4;

/// Tag of a withdrawal.
pub const TAG_WITHDRAW_FUNDS: u8 = 5;

/// Tag of opening a sale.
pub const TAG_OPEN: u8 = 6;

/// One operation of the ledger with the arguments that travel in the
/// instruction.
#[derive(Clone, Copy, Debug, PartialEq, Eq, Structural)]
pub enum Instruction {
    /// `buyer` asks for `amount` units.
    Purchase { buyer: Identity, amount: u64 },
    /// The caller claims what has vested.
    Claim,
    /// The caller enables claiming.
    EnableClaiming,
    /// The caller sets the price to `new_price`.
    ChangePrice { new_price: u64 },
    /// The caller deposits `amount` into the reserve.
    Deposit { amount: u64 },
    /// The caller withdraws `amount` of the raised funds to `recipient`.
    WithdrawFunds { recipient: Identity, amount: u64 },
}

/// The terms that travel in the instruction that opens a sale.
#[derive(Clone, Copy, Debug, PartialEq, Eq, Structural)]
pub struct OpenTerms {
    /// Price of one unit.
    pub unit_price: u64,
    /// The supply cap.
    pub total_supply: u64,
    /// Months during which nothing vests.
    pub cliff_months: u8,
    /// Share of the claimable balance released per month, in percent.
    pub monthly_release_percent: u8,
    /// Share of each purchase that is released by vesting, in percent.
    pub initial_claimable_percent: u8,
}

/// What the surroundings of a call supply: who calls, what time it is, and
/// the balances that the operations decide on.
#[derive(Clone, Copy, Debug)]
pub struct CallContext {
    /// The authenticated caller.
    pub caller: Identity,
    /// The clock reading, in seconds.
    pub now: i64,
    /// What the caller has tendered for a purchase.
    pub payment: u64,
    /// What the reserve holds, for a deposit.
    pub reserve_balance: u64,
    /// The funds raised, for a withdrawal.
    pub raised_funds: u64,
    /// What has to stay of the raised funds, for a withdrawal.
    pub minimum_reserve: u64,
    /// How the transfer of the amount quoted for a claim ended.
    pub transfer: Result<(), InsufficientBalance>,
}

/// What a processed instruction asks of the surroundings.
#[derive(Clone, Copy, Debug, PartialEq, Eq, Structural)]
pub enum Effect {
    /// Units were sold; the cost is to be collected.
    Purchased(Purchase),
    /// The amount was claimed and has been transferred.
    Claimed(u64),
    /// Claiming is enabled from now on.
    ClaimingEnabled,
    /// The price was changed.
    PriceChanged,
    /// The deposit is granted; the reserve then holds this much.
    Deposited(u64),
    /// The withdrawal is granted.
    Withdrawn(Withdrawal),
}

/// The bytes of an instruction.
pub open spec fn encode_instruction(instruction: Instruction) -> Seq<u8> {
    match instruction {
        Instruction::Purchase { buyer, amount } => seq![0u8] + buyer@ + le_bytes(amount as nat, 8),
        Instruction::Claim => seq![1u8],
        Instruction::EnableClaiming => seq![2u8],
        Instruction::ChangePrice { new_price } => seq![3u8] + le_bytes(new_price as nat, 8),
        Instruction::Deposit { amount } => seq![4u8] + le_bytes(amount as nat, 8),
        Instruction::WithdrawFunds { recipient, amount } => seq![5u8] + recipient@ + le_bytes(
            amount as nat,
            8,
        ),
    }
}

/// The bytes of the instruction that opens a sale.
pub open spec fn encode_open(terms: OpenTerms) -> Seq<u8> {
    seq![6u8] + le_bytes(terms.unit_price as nat, 8) + le_bytes(terms.total_supply as nat, 8)
        + seq![
        terms.cliff_months,
        terms.monthly_release_percent,
        terms.initial_claimable_percent,
    ]
}

/// The terms that `data` spell, if they have the shape of the instruction
/// that opens a sale.
pub open spec fn parse_open(data: Seq<u8>) -> Option<OpenTerms> {
    if data.len() == 20 && data[0] == 6 {
        Some(
            OpenTerms {
                unit_price: le_value(data.subrange(1, 9)) as u64,
                total_supply: le_value(data.subrange(9, 17)) as u64,
                cliff_months: data[17],
                monthly_release_percent: data[18],
                initial_claimable_percent: data[19],
            },
        )
    } else {
        None
    }
}

/// The bytes of opening terms spell those terms, and spell no instruction
/// on an open sale.
pub proof fn lemma_parse_encoded_open(terms: OpenTerms)
    ensures
        parse_open(encode_open(terms)) == Some(terms),
        parse_instruction(encode_open(terms)) is None,
{
    let data = encode_open(terms);
    lemma_pow256_values();
    lemma_le_bytes_len(terms.unit_price as nat, 8);
    lemma_le_bytes_len(terms.total_supply as nat, 8);
    lemma_le_value_of_bytes(terms.unit_price as nat, 8);
    lemma_le_value_of_bytes(terms.total_supply as nat, 8);
    assert(data.subrange(1, 9) =~= le_bytes(terms.unit_price as nat, 8));
    assert(data.subrange(9, 17) =~= le_bytes(terms.total_supply as nat, 8));
}

/// Bytes that spell opening terms are the bytes of those terms.
pub proof fn lemma_encode_parsed_open(data: Seq<u8>)
    requires
        parse_open(data) is Some,
    ensures
        encode_open(parse_open(data)->Some_0) == data,
{
    lemma_pow256_values();
    lemma_le_value_bound(data.subrange(1, 9));
    lemma_le_value_bound(data.subrange(9, 17));
    lemma_le_bytes_of_value(data.subrange(1, 9));
    lemma_le_bytes_of_value(data.subrange(9, 17));
    let terms = parse_open(data)->Some_0;
    assert(encode_open(terms) =~= seq![data[0]] + data.subrange(1, 9) + data.subrange(9, 17)
        + seq![data[17], data[18], data[19]]);
    assert(seq![data[0]] + data.subrange(1, 9) + data.subrange(9, 17) + seq![
        data[17],
        data[18],
        data[19],
    ] =~= data);
}

/// The instruction that `data` spell, if they have the shape of one: a
/// known tag followed by exactly the bytes of its arguments.
pub open spec fn parse_instruction(data: Seq<u8>) -> Option<Instruction> {
    if data.len() == 0 {
        None
    } else if data[0] == 0 && data.len() == 41 {
        Some(
            Instruction::Purchase {
                buyer: Identity::spec_from_bytes(data.subrange(1, 33)),
                amount: le_value(data.subrange(33, 41)) as u64,
            },
        )
    } else if data[0] == 1 && data.len() == 1 {
        Some(Instruction::Claim)
    } else if data[0] == 2 && data.len() == 1 {
        Some(Instruction::EnableClaiming)
    } else if data[0] == 3 && data.len() == 9 {
        Some(Instruction::ChangePrice { new_price: le_value(data.subrange(1, 9)) as u64 })
    } else if data[0] == 4 && data.len() == 9 {
        Some(Instruction::Deposit { amount: le_value(data.subrange(1, 9)) as u64 })
    } else if data[0] == 5 && data.len() == 41 {
        Some(
            Instruction::WithdrawFunds {
                recipient: Identity::spec_from_bytes(data.subrange(1, 33)),
                amount: le_value(data.subrange(33, 41)) as u64,
            },
        )
    } else {
        None
    }
}

/// The bytes of an instruction spell that instruction.
pub proof fn lemma_parse_encoded(instruction: Instruction)
    ensures
        parse_instruction(encode_instruction(instruction)) == Some(instruction),
{
    let data = encode_instruction(instruction);
    lemma_pow256_values();
    match instruction {
        Instruction::Purchase { buyer, amount } => {
            buyer.lemma_view_len();
            lemma_le_bytes_len(amount as nat, 8);
            lemma_le_value_of_bytes(amount as nat, 8);
            buyer.lemma_from_view();
            assert(data.subrange(1, 33) =~= buyer@);
            assert(data.subrange(33, 41) =~= le_bytes(amount as nat, 8));
        },
        Instruction::Claim => {},
        Instruction::EnableClaiming => {},
        Instruction::ChangePrice { new_price } => {
            lemma_le_bytes_len(new_price as nat, 8);
            lemma_le_value_of_bytes(new_price as nat, 8);
            assert(data.subrange(1, 9) =~= le_bytes(new_price as nat, 8));
        },
        Instruction::Deposit { amount } => {
            lemma_le_bytes_len(amount as nat, 8);
            lemma_le_value_of_bytes(amount as nat, 8);
            assert(data.subrange(1, 9) =~= le_bytes(amount as nat, 8));
        },
        Instruction::WithdrawFunds { recipient, amount } => {
            recipient.lemma_view_len();
            lemma_le_bytes_len(amount as nat, 8);
            lemma_le_value_of_bytes(amount as nat, 8);
            recipient.lemma_from_view();
            assert(data.subrange(1, 33) =~= recipient@);
            assert(data.subrange(33, 41) =~= le_bytes(amount as nat, 8));
        },
    }
}

/// Bytes that spell an instruction are the bytes of that instruction.
pub proof fn lemma_encode_parsed(data: Seq<u8>)
    requires
        parse_instruction(data) is Some,
    ensures
        encode_instruction(parse_instruction(data)->Some_0) == data,
{
    lemma_pow256_values();
    let instruction = parse_instruction(data)->Some_0;
    if data.len() == 41 {
        Identity::lemma_view_of_bytes(data.subrange(1, 33));
        lemma_le_value_bound(data.subrange(33, 41));
        lemma_le_bytes_of_value(data.subrange(33, 41));
        assert(encode_instruction(instruction) =~= seq![data[0]] + data.subrange(1, 33)
            + data.subrange(33, 41));
    } else if data.len() == 9 {
        lemma_le_value_bound(data.subrange(1, 9));
        lemma_le_bytes_of_value(data.subrange(1, 9));
    }
}

/// What an instruction does to a sale in a given context: the result, and
/// the sale afterwards.
pub open spec fn spec_apply(sale: SaleModel, call: CallContext, instruction: Instruction) -> (
    Result<Effect, SaleError>,
    SaleModel,
) {
    match instruction {
        Instruction::Purchase { buyer, amount } => (
            match sale.purchase_outcome(amount, call.payment) {
                Ok(purchase) => Ok(Effect::Purchased(purchase)),
                Err(error) => Err(error),
            },
            sale.purchased(buyer, amount, call.payment),
        ),
        Instruction::Claim => (
            match sale.claim_outcome(call.caller, call.now, call.transfer) {
                Ok(delta) => Ok(Effect::Claimed(delta)),
                Err(error) => Err(error),
            },
            sale.claimed(call.caller, call.now, call.transfer),
        ),
        Instruction::EnableClaiming => (
            match sale.enable_outcome(call.caller) {
                Ok(_) => Ok(Effect::ClaimingEnabled),
                Err(error) => Err(error),
            },
            sale.enabled(call.caller, call.now),
        ),
        Instruction::ChangePrice { new_price } => (
            match sale.admin_outcome(call.caller) {
                Ok(_) => Ok(Effect::PriceChanged),
                Err(error) => Err(error),
            },
            sale.repriced(call.caller, new_price),
        ),
        Instruction::Deposit { amount } => (
            match sale.deposit_outcome(call.caller, call.reserve_balance, amount) {
                Ok(balance) => Ok(Effect::Deposited(balance)),
                Err(error) => Err(error),
            },
            sale,
        ),
        Instruction::WithdrawFunds { recipient, amount } => (
            match sale.withdraw_outcome(
                call.caller,
                recipient,
                amount,
                call.raised_funds,
                call.minimum_reserve,
            ) {
                Ok(withdrawal) => Ok(Effect::Withdrawn(withdrawal)),
                Err(error) => Err(error),
            },
            sale,
        ),
    }
}

/// What instruction bytes do to a sale in a given context: malformed bytes
/// are refused and change nothing.
pub open spec fn spec_process(sale: SaleModel, call: CallContext, data: Seq<u8>) -> (
    Result<Effect, SaleError>,
    SaleModel,
) {
    match parse_instruction(data) {
        Some(instruction) => spec_apply(sale, call, instruction),
        None => (Err(SaleError::InvalidInstructionData), sale),
    }
}

/// An instruction that fails leaves the sale as it was.
pub proof fn lemma_failure_changes_nothing(sale: SaleModel, call: CallContext, data: Seq<u8>)
    requires
        spec_process(sale, call, data).0 is Err,
    ensures
        spec_process(sale, call, data).1 == sale,
{
}

/// Reads the eight-byte integer of `data` at `start`.
fn read_amount(data: &[u8], start: usize) -> (value: u64)
    requires
        start + 8 <= data@.len(),
    ensures
        value == le_value(data@.subrange(start as int, start + 8)),
{
    proof {
        lemma_le_value_bound(data@.subrange(start as int, start + 8));
        lemma_pow256_values();
    }
    read_le(data, start, 8) as u64
}

impl Instruction {
    /// The bytes of the instruction.
    pub fn pack(&self) -> (data: Vec<u8>)
        ensures
            data@ == encode_instruction(*self),
    {
        let mut data: Vec<u8> = Vec::new();
        match self {
            Instruction::Purchase { buyer, amount } => {
                data.push(TAG_PURCHASE);
                buyer.write(&mut data);
                write_le(&mut data, *amount as u128, 8);
            },
            Instruction::Claim => {
                data.push(TAG_CLAIM);
            },
            Instruction::EnableClaiming => {
                data.push(TAG_ENABLE_CLAIMING);
            },
            Instruction::ChangePrice { new_price } => {
                data.push(TAG_CHANGE_PRICE);
                write_le(&mut data, *new_price as u128, 8);
            },
            Instruction::Deposit { amount } => {
                data.push(TAG_DEPOSIT);
                write_le(&mut data, *amount as u128, 8);
            },
            Instruction::WithdrawFunds { recipient, amount } => {
                data.push(TAG_WITHDRAW_FUNDS);
                recipient.write(&mut data);
                write_le(&mut data, *amount as u128, 8);
            },
        }
        data
    }

    /// The instruction that `data` spell.  Fails with
    /// `InvalidInstructionData` unless `data` are a known tag followed by
    /// exactly the bytes of its arguments.
    pub fn unpack(data: &[u8]) -> (result: Result<Instruction, SaleError>)
        ensures
            match result {
                Ok(instruction) => parse_instruction(data@) == Some(instruction),
                Err(error) => error == SaleError::InvalidInstructionData && parse_instruction(
                    data@,
                ) is None,
            },
    {
        let length = data.len();
        if length == 0 {
            return Err(SaleError::InvalidInstructionData);
        }
        let tag = data[0];
        if tag == TAG_PURCHASE && length == 41 {
            Ok(Instruction::Purchase { buyer: Identity::read(data, 1), amount: read_amount(data, 33) })
        } else if tag == TAG_CLAIM && length == 1 {
            Ok(Instruction::Claim)
        } else if tag == TAG_ENABLE_CLAIMING && length == 1 {
            Ok(Instruction::EnableClaiming)
        } else if tag == TAG_CHANGE_PRICE && length == 9 {
            Ok(Instruction::ChangePrice { new_price: read_amount(data, 1) })
        } else if tag == TAG_DEPOSIT && length == 9 {
            Ok(Instruction::Deposit { amount: read_amount(data, 1) })
        } else if tag == TAG_WITHDRAW_FUNDS && length == 41 {
            Ok(
                Instruction::WithdrawFunds {
                    recipient: Identity::read(data, 1),
                    amount: read_amount(data, 33),
                },
            )
        } else {
            Err(SaleError::InvalidInstructionData)
        }
    }
}

impl OpenTerms {
    /// The bytes of the instruction that opens a sale on these terms.
    pub fn pack(&self) -> (data: Vec<u8>)
        ensures
            data@ == encode_open(*self),
    {
        let mut data: Vec<u8> = Vec::new();
        data.push(TAG_OPEN);
        write_le(&mut data, self.unit_price as u128, 8);
        write_le(&mut data, self.total_supply as u128, 8);
        data.push(self.cliff_months);
        data.push(self.monthly_release_percent);
        data.push(self.initial_claimable_percent);
        data
    }

    /// The opening terms that `data` spell.  Fails with
    /// `InvalidInstructionData` unless `data` are the opening tag followed
    /// by exactly the bytes of the terms.
    pub fn unpack(data: &[u8]) -> (result: Result<OpenTerms, SaleError>)
        ensures
            match result {
                Ok(terms) => parse_open(data@) == Some(terms),
                Err(error) => error == SaleError::InvalidInstructionData && parse_open(data@)
                    is None,
            },
    {
        if data.len() != 20 || data[0] != TAG_OPEN {
            return Err(SaleError::InvalidInstructionData);
        }
        Ok(
            OpenTerms {
                unit_price: read_amount(data, 1),
                total_supply: read_amount(data, 9),
                cliff_months: data[17],
                monthly_release_percent: data[18],
                initial_claimable_percent: data[19],
            },
        )
    }
}

/// What opening a sale from instruction bytes gives: the sale on the
/// decoded terms, with `admin` as its admin.
pub open spec fn spec_open(admin: Identity, reserve_account: Identity, data: Seq<u8>) -> Result<
    SaleModel,
    SaleError,
> {
    match parse_open(data) {
        None => Err(SaleError::InvalidInstructionData),
        Some(terms) => if terms.monthly_release_percent > 100 || terms.initial_claimable_percent
            > 100 {
            Err(SaleError::InvalidPolicy)
        } else {
            Ok(
                SaleModel::opened(
                    admin,
                    reserve_account,
                    terms.unit_price,
                    terms.total_supply,
                    terms.cliff_months,
                    terms.monthly_release_percent,
                    terms.initial_claimable_percent,
                ),
            )
        },
    }
}

/// Decodes the instruction that opens a sale and opens it, with the caller
/// `admin` as its admin and `reserve_account` as its reserve.
pub fn open_sale(admin: Identity, reserve_account: Identity, instruction_data: &[u8]) -> (result:
    Result<TokenSale, SaleError>)
    ensures
        match result {
            Ok(sale) => sale.wf() && spec_open(admin, reserve_account, instruction_data@) == Ok::<
                SaleModel,
                SaleError,
            >(sale@),
            Err(error) => spec_open(admin, reserve_account, instruction_data@) == Err::<
                SaleModel,
                SaleError,
            >(error),
        },
{
    let terms = match OpenTerms::unpack(instruction_data) {
        Ok(terms) => terms,
        Err(error) => {
            return Err(error);
        },
    };
    TokenSale::new(
        admin,
        reserve_account,
        terms.unit_price,
        terms.total_supply,
        terms.cliff_months,
        terms.monthly_release_percent,
        terms.initial_claimable_percent,
    )
}

/// Applies a decoded instruction to the ledger.
pub fn apply_instruction(sale: &mut TokenSale, call: &CallContext, instruction: &Instruction)
    -> (result: Result<Effect, SaleError>)
    requires
        old(sale).wf(),
    ensures
        final(sale).wf(),
        result == spec_apply(old(sale)@, *call, *instruction).0,
        final(sale)@ == spec_apply(old(sale)@, *call, *instruction).1,
        result is Err ==> final(sale)@ == old(sale)@,
{
    match instruction {
        Instruction::Purchase { buyer, amount } => {
            match sale.buy_tokens(buyer, *amount, call.payment) {
                Ok(purchase) => Ok(Effect::Purchased(purchase)),
                Err(error) => Err(error),
            }
        },
        Instruction::Claim => {
            match sale.claim_tokens(&call.caller, call.now, call.transfer) {
                Ok(delta) => Ok(Effect::Claimed(delta)),
                Err(error) => Err(error),
            }
        },
        Instruction::EnableClaiming => {
            match sale.enable_claiming(&call.caller, call.now) {
                Ok(_) => Ok(Effect::ClaimingEnabled),
                Err(error) => Err(error),
            }
        },
        Instruction::ChangePrice { new_price } => {
            match sale.change_token_price(&call.caller, *new_price) {
                Ok(_) => Ok(Effect::PriceChanged),
                Err(error) => Err(error),
            }
        },
        Instruction::Deposit { amount } => {
            match sale.deposit_tokens(&call.caller, call.reserve_balance, *amount) {
                Ok(balance) => Ok(Effect::Deposited(balance)),
                Err(error) => Err(error),
            }
        },
        Instruction::WithdrawFunds { recipient, amount } => {
            match sale.withdraw_funds(
                &call.caller,
                recipient,
                *amount,
                call.raised_funds,
                call.minimum_reserve,
            ) {
                Ok(withdrawal) => Ok(Effect::Withdrawn(withdrawal)),
                Err(error) => Err(error),
            }
        },
    }
}

/// Decodes `instruction_data` and applies the instruction to the ledger.
///
/// Malformed data fail with `InvalidInstructionData` before the ledger is
/// touched; any failure leaves the ledger as it was.
pub fn process_instruction(sale: &mut TokenSale, call: &CallContext, instruction_data: &[u8])
    -> (result: Result<Effect, SaleError>)
    requires
        old(sale).wf(),
    ensures
        final(sale).wf(),
        result == spec_process(old(sale)@, *call, instruction_data@).0,
        final(sale)@ == spec_process(old(sale)@, *call, instruction_data@).1,
        result is Err ==> final(sale)@ == old(sale)@,
        parse_instruction(instruction_data@) is None ==> result == Err::<Effect, SaleError>(
            SaleError::InvalidInstructionData,
        ),
{
    match Instruction::unpack(instruction_data) {
        Ok(instruction) => apply_instruction(sale, call, &instruction),
        Err(error) => Err(error),
    }
}

} // verus!
