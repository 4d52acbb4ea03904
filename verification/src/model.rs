//! The mathematical model of a sale: its terms, its buyer records, and what
//! each operation does to them.
//!
//! The executable ledger is specified against this model: every operation
//! of the ledger states its result and its effect through the functions
//! defined here.

use vstd::prelude::*;
use crate::error::SaleError;
use crate::identity::Identity;
use crate::vesting::{spec_claimable_delta, spec_elapsed_months, spec_vested_to_date};

verus! {

/// What the ledger keeps for one buyer.
#[derive(Clone, Copy, Debug, PartialEq, Eq, Structural)]
pub struct BuyerInfo {
    /// The buyer; never changes.
    pub owner: Identity,
    /// Cumulative units bought.
    pub purchased_amount: u64,
    /// The part of the purchases that is released by vesting.
    pub claimable_total: u64,
    /// Cumulative units already disbursed to the buyer.
    pub claimed_so_far: u64,
}

impl BuyerInfo {
    /// A record never has more claimed than is claimable, nor more claimable
    /// than was bought.
    pub open spec fn valid(self) -> bool {
        self.claimed_so_far <= self.claimable_total <= self.purchased_amount
    }

    /// What is claimable of the record and has not been claimed yet.
    pub open spec fn outstanding(self) -> int {
        self.claimable_total - self.claimed_so_far
    }
}

/// The terms and counters of a sale, without its buyer records.
#[derive(Clone, Copy, Debug, PartialEq, Eq, Structural)]
pub struct TokenSaleData {
    /// The identity authorized for administrative operations.
    pub admin: Identity,
    /// The asset pool that backs disbursements.
    pub reserve_account: Identity,
    /// Price of one unit.
    pub unit_price: u64,
    /// The supply cap.
    pub total_supply: u64,
    /// Units sold so far.
    pub sold_amount: u64,
    /// Share of each purchase that is released by vesting, in percent.
    pub initial_claimable_percent: u8,
    /// Months during which nothing vests.
    pub cliff_months: u8,
    /// Share of the claimable balance released per month, in percent.
    pub monthly_release_percent: u8,
    /// The vesting baseline; zero until claiming is enabled.
    pub vesting_start: i64,
    /// Whether claiming has been enabled.
    pub claiming_enabled: bool,
}

impl TokenSaleData {
    /// The terms of a sale are well formed.
    pub open spec fn valid(self) -> bool {
        &&& self.sold_amount <= self.total_supply
        &&& self.initial_claimable_percent <= 100
        &&& self.monthly_release_percent <= 100
        &&& !self.claiming_enabled ==> self.vesting_start == 0
    }
}

/// What a successful purchase hands back.
#[derive(Clone, Copy, Debug, PartialEq, Eq, Structural)]
pub struct Purchase {
    /// Units actually sold: the request, cut down to what was left.
    pub sellable: u64,
    /// The price of the sold units, to be moved from the buyer to the admin.
    pub cost: u64,
    /// Units asked for and not sold.
    pub refund: u64,
}

/// Where a sale stands in its life.
#[derive(Clone, Copy, Debug, PartialEq, Eq, Structural)]
pub enum SalePhase {
    /// Units are left to sell and claiming is not enabled.
    Created,
    /// Everything is sold and claiming is not enabled.
    SoldOut,
    /// Claiming is enabled; the sale never leaves this phase.
    ClaimingActive,
}

/// The failure of the transfer service.
#[derive(Clone, Copy, Debug, PartialEq, Eq, Structural)]
pub struct InsufficientBalance;

/// What a granted withdrawal hands back.
#[derive(Clone, Copy, Debug, PartialEq, Eq, Structural)]
pub struct Withdrawal {
    /// Who receives the funds.
    pub recipient: Identity,
    /// The amount to move to the recipient.
    pub amount: u64,
    /// The raised funds left after the withdrawal.
    pub remaining: u64,
}

/// The sum of the purchased amounts of a list of records.
pub open spec fn total_purchased(buyers: Seq<BuyerInfo>) -> int
    decreases buyers.len(),
{
    if buyers.len() == 0 {
        0
    } else {
        total_purchased(buyers.drop_last()) + buyers.last().purchased_amount
    }
}

/// The sum of what is still outstanding over a list of records.
pub open spec fn total_outstanding(buyers: Seq<BuyerInfo>) -> int
    decreases buyers.len(),
{
    if buyers.len() == 0 {
        0
    } else {
        total_outstanding(buyers.drop_last()) + buyers.last().outstanding()
    }
}

/// A sale as a mathematical value.
pub struct SaleModel {
    /// The terms and counters.
    pub terms: TokenSaleData,
    /// One record per buyer, in the order of their first purchase.
    pub buyers: Seq<BuyerInfo>,
}

/// One mutating operation of the ledger with its arguments.
pub enum Operation {
    /// A purchase of `amount` units by `buyer`, who tenders `payment`.
    Buy { buyer: Identity, amount: u64, payment: u64 },
    /// `caller` enables claiming at time `now`.
    EnableClaiming { caller: Identity, now: i64 },
    /// `buyer` claims at time `now`; `transfer` is how the transfer of the
    /// newly vested amount ended.
    Claim { buyer: Identity, now: i64, transfer: Result<(), InsufficientBalance> },
    /// `caller` sets the price to `new_price`.
    ChangePrice { caller: Identity, new_price: u64 },
}

impl SaleModel {
    /// Whether the sale holds a record for `who`.
    pub open spec fn has_buyer(self, who: Identity) -> bool {
        exists|i: int| 0 <= i < self.buyers.len() && (#[trigger] self.buyers[i]).owner == who
    }

    /// Where the record of `who` stands, if there is one.
    pub open spec fn position(self, who: Identity) -> int {
        choose|i: int| 0 <= i < self.buyers.len() && (#[trigger] self.buyers[i]).owner == who
    }

    /// The record of `who`, if there is one.
    pub open spec fn record(self, who: Identity) -> BuyerInfo {
        self.buyers[self.position(who)]
    }

    /// No two records have the same owner.
    pub open spec fn owners_distinct(self) -> bool {
        forall|i: int, j: int|
            0 <= i < self.buyers.len() && 0 <= j < self.buyers.len() && i != j ==> (
            #[trigger] self.buyers[i]).owner != (#[trigger] self.buyers[j]).owner
    }

    /// The invariant of a sale: never more sold than the cap, every record
    /// within its bounds, one record per buyer, and the sold counter equal
    /// to the sum of all purchases.
    pub open spec fn valid(self) -> bool {
        &&& self.terms.valid()
        &&& forall|i: int| 0 <= i < self.buyers.len() ==> (#[trigger] self.buyers[i]).valid()
        &&& self.owners_distinct()
        &&& total_purchased(self.buyers) == self.terms.sold_amount
    }

    /// A freshly opened sale: nothing sold, no buyers, claiming disabled.
    pub open spec fn opened(
        admin: Identity,
        reserve_account: Identity,
        unit_price: u64,
        total_supply: u64,
        cliff_months: u8,
        monthly_release_percent: u8,
        initial_claimable_percent: u8,
    ) -> SaleModel {
        SaleModel {
            terms: TokenSaleData {
                admin,
                reserve_account,
                unit_price,
                total_supply,
                sold_amount: 0,
                initial_claimable_percent,
                cliff_months,
                monthly_release_percent,
                vesting_start: 0,
                claiming_enabled: false,
            },
            buyers: Seq::empty(),
        }
    }

    /// Units left to sell under the cap.
    pub open spec fn remaining(self) -> int {
        self.terms.total_supply - self.terms.sold_amount
    }

    /// Where the sale stands in its life.
    pub open spec fn phase(self) -> SalePhase {
        if self.terms.claiming_enabled {
            SalePhase::ClaimingActive
        } else if self.terms.sold_amount == self.terms.total_supply {
            SalePhase::SoldOut
        } else {
            SalePhase::Created
        }
    }

    /// Units that a request for `requested` units can get: the request, cut
    /// down to what is left under the cap.
    pub open spec fn sellable(self, requested: u64) -> int {
        let left = self.remaining();
        if requested <= left {
            requested as int
        } else {
            left
        }
    }

    /// The part of `sellable` units that is released by vesting.
    pub open spec fn initial_claimable(self, sellable: int) -> int {
        sellable * self.terms.initial_claimable_percent / 100
    }

    /// The result of a purchase.
    pub open spec fn purchase_outcome(self, requested: u64, payment: u64) -> Result<
        Purchase,
        SaleError,
    > {
        let sellable = self.sellable(requested);
        let cost = sellable * self.terms.unit_price;
        if sellable == 0 {
            Err(SaleError::SaleClosed)
        } else if cost > u64::MAX {
            Err(SaleError::Overflow)
        } else if payment < cost {
            Err(SaleError::InsufficientFunds)
        } else {
            Ok(
                Purchase {
                    sellable: sellable as u64,
                    cost: cost as u64,
                    refund: (requested - sellable) as u64,
                },
            )
        }
    }

    /// The sale after `sellable` units went to `buyer`.
    pub open spec fn credited(self, buyer: Identity, sellable: int) -> SaleModel {
        let claimable = self.initial_claimable(sellable);
        let terms = TokenSaleData {
            sold_amount: (self.terms.sold_amount + sellable) as u64,
            ..self.terms
        };
        if self.has_buyer(buyer) {
            let at = self.position(buyer);
            let before = self.buyers[at];
            let after = BuyerInfo {
                purchased_amount: (before.purchased_amount + sellable) as u64,
                claimable_total: (before.claimable_total + claimable) as u64,
                ..before
            };
            SaleModel { terms, buyers: self.buyers.update(at, after) }
        } else {
            let fresh = BuyerInfo {
                owner: buyer,
                purchased_amount: sellable as u64,
                claimable_total: claimable as u64,
                claimed_so_far: 0,
            };
            SaleModel { terms, buyers: self.buyers.push(fresh) }
        }
    }

    /// The sale after a purchase: unchanged when the purchase fails.
    pub open spec fn purchased(self, buyer: Identity, requested: u64, payment: u64) -> SaleModel {
        match self.purchase_outcome(requested, payment) {
            Ok(purchase) => self.credited(buyer, purchase.sellable as int),
            Err(_) => self,
        }
    }

    /// Whether `caller` may perform administrative operations.
    pub open spec fn is_admin(self, caller: Identity) -> bool {
        caller == self.terms.admin
    }

    /// The result of enabling claiming.
    pub open spec fn enable_outcome(self, caller: Identity) -> Result<(), SaleError> {
        if !self.is_admin(caller) {
            Err(SaleError::Unauthorized)
        } else if self.terms.claiming_enabled {
            Err(SaleError::AlreadyEnabled)
        } else {
            Ok(())
        }
    }

    /// The sale after enabling claiming at `now`: unchanged when refused.
    pub open spec fn enabled(self, caller: Identity, now: i64) -> SaleModel {
        match self.enable_outcome(caller) {
            Ok(_) => SaleModel {
                terms: TokenSaleData { claiming_enabled: true, vesting_start: now, ..self.terms },
                ..self
            },
            Err(_) => self,
        }
    }

    /// What of a claimable balance has vested at `now` under the terms of
    /// the sale.
    pub open spec fn vested_at(self, claimable_total: u64, now: i64) -> int {
        spec_vested_to_date(
            claimable_total as int,
            self.terms.cliff_months as int,
            self.terms.monthly_release_percent as int,
            spec_elapsed_months(self.terms.vesting_start as int, now as int),
        )
    }

    /// The amount that `buyer` can claim at `now`, or why there is none.
    pub open spec fn claim_quote(self, buyer: Identity, now: i64) -> Result<u64, SaleError> {
        if !self.terms.claiming_enabled {
            Err(SaleError::ClaimingNotEnabled)
        } else if !self.has_buyer(buyer) {
            Err(SaleError::UnknownBuyer)
        } else {
            let record = self.record(buyer);
            let delta = spec_claimable_delta(
                self.vested_at(record.claimable_total, now),
                record.claimed_so_far as int,
            );
            if delta == 0 {
                Err(SaleError::NothingToClaim)
            } else {
                Ok(delta as u64)
            }
        }
    }

    /// The result of a claim, given how the transfer of the quoted amount
    /// ended.
    pub open spec fn claim_outcome(
        self,
        buyer: Identity,
        now: i64,
        transfer: Result<(), InsufficientBalance>,
    ) -> Result<u64, SaleError> {
        match self.claim_quote(buyer, now) {
            Err(error) => Err(error),
            Ok(delta) => if transfer is Ok {
                Ok(delta)
            } else {
                Err(SaleError::TransferFailed)
            },
        }
    }

    /// The sale after a claim: the quoted amount is added to what the buyer
    /// has claimed; unchanged when the claim fails.
    pub open spec fn claimed(
        self,
        buyer: Identity,
        now: i64,
        transfer: Result<(), InsufficientBalance>,
    ) -> SaleModel {
        match self.claim_outcome(buyer, now, transfer) {
            Ok(delta) => {
                let at = self.position(buyer);
                let before = self.buyers[at];
                let after = BuyerInfo {
                    claimed_so_far: (before.claimed_so_far + delta) as u64,
                    ..before
                };
                SaleModel { buyers: self.buyers.update(at, after), ..self }
            },
            Err(_) => self,
        }
    }

    /// The result of an operation that only the admin may perform and that
    /// cannot fail otherwise.
    pub open spec fn admin_outcome(self, caller: Identity) -> Result<(), SaleError> {
        if self.is_admin(caller) {
            Ok(())
        } else {
            Err(SaleError::Unauthorized)
        }
    }

    /// The sale after a change of price: unchanged when refused.
    pub open spec fn repriced(self, caller: Identity, new_price: u64) -> SaleModel {
        if self.is_admin(caller) {
            SaleModel { terms: TokenSaleData { unit_price: new_price, ..self.terms }, ..self }
        } else {
            self
        }
    }

    /// The result of a deposit of `amount` into a reserve that holds
    /// `reserve_balance`: the new balance of the reserve.
    pub open spec fn deposit_outcome(self, caller: Identity, reserve_balance: u64, amount: u64)
        -> Result<u64, SaleError> {
        if !self.is_admin(caller) {
            Err(SaleError::Unauthorized)
        } else if reserve_balance + amount > u64::MAX {
            Err(SaleError::Overflow)
        } else {
            Ok((reserve_balance + amount) as u64)
        }
    }

    /// What can be withdrawn of `raised_funds` when `minimum_reserve` has to
    /// stay.
    pub open spec fn withdrawable(raised_funds: u64, minimum_reserve: u64) -> int {
        if raised_funds >= minimum_reserve {
            raised_funds - minimum_reserve
        } else {
            0
        }
    }

    /// The result of a withdrawal.
    pub open spec fn withdraw_outcome(
        self,
        caller: Identity,
        recipient: Identity,
        amount: u64,
        raised_funds: u64,
        minimum_reserve: u64,
    ) -> Result<Withdrawal, SaleError> {
        if !self.is_admin(caller) {
            Err(SaleError::Unauthorized)
        } else if amount > Self::withdrawable(raised_funds, minimum_reserve) {
            Err(SaleError::InsufficientFunds)
        } else {
            Ok(Withdrawal { recipient, amount, remaining: (raised_funds - amount) as u64 })
        }
    }

    /// The sale after one operation.
    pub open spec fn step(self, operation: Operation) -> SaleModel {
        match operation {
            Operation::Buy { buyer, amount, payment } => self.purchased(buyer, amount, payment),
            Operation::EnableClaiming { caller, now } => self.enabled(caller, now),
            Operation::Claim { buyer, now, transfer } => self.claimed(buyer, now, transfer),
            Operation::ChangePrice { caller, new_price } => self.repriced(caller, new_price),
        }
    }

    /// The sale after a sequence of operations, first to last.
    pub open spec fn run(self, operations: Seq<Operation>) -> SaleModel
        decreases operations.len(),
    {
        if operations.len() == 0 {
            self
        } else {
            self.run(operations.drop_last()).step(operations.last())
        }
    }
}

} // verus!
