//! Transfer orders: what the ledger hands to the transfer service.
//!
//! The ledger moves nothing itself.  For a payment, a disbursement or a
//! deposit it builds the instruction that asks the responsible program for
//! the transfer, with the parties and the amount that the ledger decided on,
//! and leaves it to its surroundings to have the instruction carried out.

use vstd::prelude::*;
use solana_program::pubkey::Pubkey;
use crate::error::SaleError;
use crate::identity::Identity;
use crate::ledger::TokenSale;
use crate::model::{Purchase, SaleModel};
use crate::wire::le_bytes;

verus! {

/// One account as an instruction names it.
#[derive(Clone, Copy, Debug, PartialEq, Eq)]
pub struct AccountRole {
    /// The key of the account.
    pub key: [u8; 32],
    /// Whether the account has to sign.
    pub is_signer: bool,
    /// Whether the instruction may change the account.
    pub is_writable: bool,
}

/// An instruction for another program, as plain values.
#[derive(Clone, Debug, PartialEq, Eq)]
pub struct TransferOrder {
    /// The key of the program that carries the instruction out.
    pub program: [u8; 32],
    /// The accounts that the instruction touches, in order.
    pub accounts: Vec<AccountRole>,
    /// The instruction data.
    pub data: Vec<u8>,
}

/// The key of the token program.
pub open spec fn token_program_id() -> Seq<u8> {
    seq![
        6u8, 221, 246, 225, 215, 101, 161, 147, 217, 203, 225, 70, 206, 235, 121, 172,
        28, 180, 133, 237, 95, 91, 55, 145, 58, 140, 245, 133, 126, 255, 0, 169,
    ]
}

/// The key of the system program: thirty-two zero bytes.
pub open spec fn system_program_id() -> Seq<u8> {
    Seq::new(32, |i: int| 0u8)
}

impl AccountRole {
    /// The role names the account with these bytes as key, with these
    /// flags.
    pub open spec fn is(self, key: Seq<u8>, is_signer: bool, is_writable: bool) -> bool {
        self.key@ == key && self.is_signer == is_signer && self.is_writable == is_writable
    }
}

impl TransferOrder {
    /// The order asks the token program to move `amount` tokens from
    /// `source` to `destination`, signed by `authority` alone.
    pub open spec fn is_token_transfer(
        self,
        source: Seq<u8>,
        destination: Seq<u8>,
        authority: Seq<u8>,
        amount: u64,
    ) -> bool {
        &&& self.program@ == token_program_id()
        &&& self.accounts@.len() == 3
        &&& self.accounts@[0].is(source, false, true)
        &&& self.accounts@[1].is(destination, false, true)
        &&& self.accounts@[2].is(authority, true, false)
        &&& self.data@ == seq![3u8] + le_bytes(amount as nat, 8)
    }

    /// The order asks the system program to move `lamports` from `from`,
    /// who signs, to `to`.
    pub open spec fn is_system_transfer(self, from: Seq<u8>, to: Seq<u8>, lamports: u64) -> bool {
        &&& self.program@ == system_program_id()
        &&& self.accounts@.len() == 2
        &&& self.accounts@[0].is(from, true, true)
        &&& self.accounts@[1].is(to, false, true)
        &&& self.data@ == seq![2u8, 0u8, 0u8, 0u8] + le_bytes(lamports as nat, 8)
    }
}

/// Calls `spl_token::instruction::transfer` with no further signers and
/// hands its result back as plain values.
///
/// Trusted, not proved: the call fails exactly when `token_program` is not
/// the key of the token program; otherwise the instruction is for that
/// program, names the source and the destination as writable, the authority
/// as read-only signer, and carries the tag 3 followed by the amount in
/// eight little-endian bytes.
#[verifier::external_body]
fn build_token_transfer(
    token_program: [u8; 32],
    source: [u8; 32],
    destination: [u8; 32],
    authority: [u8; 32],
    amount: u64,
) -> (order: Option<TransferOrder>)
    ensures
        match order {
            Some(order) => token_program@ == token_program_id() && order.is_token_transfer(
                source@,
                destination@,
                authority@,
                amount,
            ),
            None => token_program@ != token_program_id(),
        },
{
    let built = spl_token::instruction::transfer(
        &Pubkey::new_from_array(token_program),
        &Pubkey::new_from_array(source),
        &Pubkey::new_from_array(destination),
        &Pubkey::new_from_array(authority),
        &[],
        amount,
    ).ok()?;
    let accounts = built.accounts.iter().map(
        |a| AccountRole { key: a.pubkey.to_bytes(), is_signer: a.is_signer, is_writable: a.is_writable },
    ).collect();
    Some(TransferOrder { program: built.program_id.to_bytes(), accounts, data: built.data })
}

/// Calls `solana_program::system_instruction::transfer` and hands its
/// result back as plain values.
///
/// Trusted, not proved: the instruction is for the system program, names
/// the sender as writable signer and the receiver as writable, and carries
/// the variant number 2 in four little-endian bytes followed by the
/// lamports in eight.
#[verifier::external_body]
fn build_system_transfer(from: [u8; 32], to: [u8; 32], lamports: u64) -> (order: TransferOrder)
    ensures
        order.is_system_transfer(from@, to@, lamports),
{
    let built = solana_program::system_instruction::transfer(
        &Pubkey::new_from_array(from),
        &Pubkey::new_from_array(to),
        lamports,
    );
    let accounts = built.accounts.iter().map(
        |a| AccountRole { key: a.pubkey.to_bytes(), is_signer: a.is_signer, is_writable: a.is_writable },
    ).collect();
    TransferOrder { program: built.program_id.to_bytes(), accounts, data: built.data }
}

/// The order that moves `amount` tokens from `source` to `destination`
/// under `authority`; `None` if `token_program` is not the token program.
pub fn token_transfer(
    token_program: &Identity,
    source: &Identity,
    destination: &Identity,
    authority: &Identity,
    amount: u64,
) -> (order: Option<TransferOrder>)
    ensures
        match order {
            Some(order) => token_program@ == token_program_id() && order.is_token_transfer(
                source@,
                destination@,
                authority@,
                amount,
            ),
            None => token_program@ != token_program_id(),
        },
{
    build_token_transfer(
        token_program.to_bytes(),
        source.to_bytes(),
        destination.to_bytes(),
        authority.to_bytes(),
        amount,
    )
}

/// The order that moves `lamports` of native currency from `from` to `to`.
pub fn system_transfer(from: &Identity, to: &Identity, lamports: u64) -> (order: TransferOrder)
    ensures
        order.is_system_transfer(from@, to@, lamports),
{
    build_system_transfer(from.to_bytes(), to.to_bytes(), lamports)
}

impl SaleModel {
    /// Whether a claim by `buyer` at `now` leads to an order for the token
    /// program named, and why not.
    pub open spec fn claim_order_outcome(self, buyer: Identity, now: i64, token_program: Identity)
        -> Result<u64, SaleError> {
        match self.claim_quote(buyer, now) {
            Err(error) => Err(error),
            Ok(delta) => if token_program@ == token_program_id() {
                Ok(delta)
            } else {
                Err(SaleError::TransferFailed)
            },
        }
    }
}

impl TokenSale {
    /// The order that collects the cost of a purchase: from the buyer to
    /// the admin of the sale.
    pub fn payment_order(&self, buyer: &Identity, purchase: &Purchase) -> (order: TransferOrder)
        ensures
            order.is_system_transfer(buyer@, self@.terms.admin@, purchase.cost),
    {
        let terms = self.get_token_sale_data();
        system_transfer(buyer, &terms.admin, purchase.cost)
    }

    /// The order that disburses what `buyer` can claim at `now`: the amount
    /// quoted by `claimable_now`, from the reserve of the sale to
    /// `destination`, under the authority of the admin.
    ///
    /// Fails as `claimable_now` does, and with `TransferFailed` if
    /// `token_program` is not the token program.
    pub fn claim_order(
        &self,
        buyer: &Identity,
        now: i64,
        token_program: &Identity,
        destination: &Identity,
    ) -> (result: Result<TransferOrder, SaleError>)
        requires
            self.wf(),
        ensures
            match result {
                Ok(order) => self@.claim_order_outcome(*buyer, now, *token_program) is Ok
                    && order.is_token_transfer(
                    self@.terms.reserve_account@,
                    destination@,
                    self@.terms.admin@,
                    self@.claim_order_outcome(*buyer, now, *token_program)->Ok_0,
                ),
                Err(error) => self@.claim_order_outcome(*buyer, now, *token_program) == Err::<
                    u64,
                    SaleError,
                >(error),
            },
    {
        let delta = match self.claimable_now(buyer, now) {
            Ok(delta) => delta,
            Err(error) => {
                return Err(error);
            },
        };
        let terms = self.get_token_sale_data();
        match token_transfer(token_program, &terms.reserve_account, destination, &terms.admin, delta) {
            Some(order) => Ok(order),
            None => Err(SaleError::TransferFailed),
        }
    }

    /// The order that deposits `amount` tokens from `source` into the
    /// reserve of the sale, under the authority of the admin; `None` if
    /// `token_program` is not the token program.
    pub fn deposit_order(&self, token_program: &Identity, source: &Identity, amount: u64) -> (order:
        Option<TransferOrder>)
        ensures
            match order {
                Some(order) => token_program@ == token_program_id() && order.is_token_transfer(
                    source@,
                    self@.terms.reserve_account@,
                    self@.terms.admin@,
                    amount,
                ),
                None => token_program@ != token_program_id(),
            },
    {
        let terms = self.get_token_sale_data();
        token_transfer(token_program, source, &terms.reserve_account, &terms.admin, amount)
    }
}

} // verus!
