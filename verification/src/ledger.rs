//! The sale ledger: the terms of a sale, one record per buyer, and the
//! operations that admit purchases, enable claiming and settle claims.
//!
//! The ledger performs no transfer itself.  Each operation decides, from
//! plain values, what is owed and what changes; whoever drives the ledger
//! moves the funds and reports how a transfer ended.

use vstd::prelude::*;
use std::collections::BTreeMap;
use crate::error::SaleError;
use crate::identity::Identity;
use crate::laws::{
    lemma_claim_quote_bounds, lemma_claimed, lemma_credited, lemma_opened_valid,
    lemma_outstanding_within_purchased, lemma_position_of_owner,
    lemma_total_purchased_nonnegative,
};
use crate::model::{
    total_outstanding, total_purchased, BuyerInfo, InsufficientBalance, Purchase, SaleModel,
    SalePhase, TokenSaleData, Withdrawal,
};
use crate::vesting::{claimable_delta, elapsed_months, vested_to_date};

verus! {

broadcast use vstd::std_specs::btree::group_btree_axioms;

/// A sale: its terms, its buyer records and an index from each buyer to the
/// buyer's record.
#[derive(Clone, Debug)]
pub struct TokenSale {
    terms: TokenSaleData,
    buyers: Vec<BuyerInfo>,
    index: BTreeMap<(u128, u128), usize>,
}

impl View for TokenSale {
    type V = SaleModel;

    closed spec fn view(&self) -> SaleModel {
        SaleModel { terms: self.terms, buyers: self.buyers@ }
    }
}

impl TokenSale {
    /// The index holds exactly the owners of the records, each with the
    /// place of its record.
    pub closed spec fn indexed(&self) -> bool {
        &&& forall|i: int|
            0 <= i < self.buyers@.len() ==> self.index@.contains_key(
                (#[trigger] self.buyers@[i]).owner.key(),
            ) && self.index@[self.buyers@[i].owner.key()] == i
        &&& forall|key: (u128, u128)| #[trigger]
            self.index@.contains_key(key) ==> 0 <= self.index@[key] < self.buyers@.len()
                && self.buyers@[self.index@[key] as int].owner.key() == key
    }

    /// The ledger is well formed: its model is a valid sale and its index is
    /// in step with its records.
    pub open spec fn wf(&self) -> bool {
        self@.valid() && self.indexed()
    }

    /// Opens a sale with nothing sold and claiming disabled.  Fails with
    /// `InvalidPolicy` if a percentage is above one hundred.
    pub fn new(
        admin: Identity,
        reserve_account: Identity,
        unit_price: u64,
        total_supply: u64,
        cliff_months: u8,
        monthly_release_percent: u8,
        initial_claimable_percent: u8,
    ) -> (result: Result<TokenSale, SaleError>)
        ensures
            (monthly_release_percent > 100 || initial_claimable_percent > 100) ==> result == Err::<
                TokenSale,
                SaleError,
            >(SaleError::InvalidPolicy),
            (monthly_release_percent <= 100 && initial_claimable_percent <= 100) ==> result is Ok
                && result->Ok_0.wf() && result->Ok_0@ == SaleModel::opened(
                admin,
                reserve_account,
                unit_price,
                total_supply,
                cliff_months,
                monthly_release_percent,
                initial_claimable_percent,
            ),
    {
        if monthly_release_percent > 100 || initial_claimable_percent > 100 {
            return Err(SaleError::InvalidPolicy);
        }
        let sale = TokenSale {
            terms: TokenSaleData {
                admin,
                reserve_account,
                unit_price,
                total_supply,
                sold_amount: 0,
                initial_claimable_percent,
                cliff_months,
                monthly_release_percent,
                vesting_start: 0,
                claiming_enabled: false,
            },
            buyers: Vec::new(),
            index: BTreeMap::new(),
        };
        proof {
            lemma_opened_valid(
                admin,
                reserve_account,
                unit_price,
                total_supply,
                cliff_months,
                monthly_release_percent,
                initial_claimable_percent,
            );
        }
        Ok(sale)
    }

    /// Where the record of `who` stands, if the ledger has one.
    fn find(&self, who: &Identity) -> (found: Option<usize>)
        requires
            self.wf(),
        ensures
            match found {
                Some(at) => self@.has_buyer(*who) && at == self@.position(*who) && at
                    < self.buyers@.len(),
                None => !self@.has_buyer(*who),
            },
    {
        let key = (who.hi, who.lo);
        match self.index.get(&key) {
            Some(at) => {
                proof {
                    let place = self.index@[key] as int;
                    lemma_position_of_owner(self@, place);
                }
                Some(*at)
            },
            None => {
                None
            },
        }
    }

    /// Admits a purchase of up to `amount` units by `buyer`, who has tendered
    /// `payment`.
    ///
    /// Sells what is left under the cap, at most `amount`.  Fails with
    /// `SaleClosed` if that is nothing, with `Overflow` if the cost does not
    /// fit, with `InsufficientFunds` if `payment` is below the cost; a failed
    /// purchase changes nothing.  On success the buyer's record and the sold
    /// counter grow by the units sold, and the result tells the cost to
    /// collect and the units not sold.  The additions to the record cannot
    /// overflow: no record holds more than was sold in all, and that stays
    /// under the cap.
    pub fn buy_tokens(&mut self, buyer: &Identity, amount: u64, payment: u64) -> (result: Result<
        Purchase,
        SaleError,
    >)
        requires
            old(self).wf(),
        ensures
            final(self).wf(),
            result == old(self)@.purchase_outcome(amount, payment),
            final(self)@ == old(self)@.purchased(*buyer, amount, payment),
            result is Err ==> final(self)@ == old(self)@,
            final(self)@.terms.sold_amount <= final(self)@.terms.total_supply,
    {
        let left = self.terms.total_supply - self.terms.sold_amount;
        let sellable = if amount <= left {
            amount
        } else {
            left
        };
        if sellable == 0 {
            return Err(SaleError::SaleClosed);
        }
        let cost = match sellable.checked_mul(self.terms.unit_price) {
            Some(cost) => cost,
            None => {
                return Err(SaleError::Overflow);
            },
        };
        if payment < cost {
            return Err(SaleError::InsufficientFunds);
        }
        proof {
            lemma_credited(self@, *buyer, sellable as int);
            assert(sellable * self.terms.initial_claimable_percent <= 0xffff_ffff_ffff_ffff * 0xff)
                by (nonlinear_arith)
                requires
                    0 <= sellable <= 0xffff_ffff_ffff_ffff,
                    0 <= self.terms.initial_claimable_percent <= 0xff,
            ;
        }
        let claimable: u64 = ((sellable as u128 * self.terms.initial_claimable_percent as u128)
            / 100) as u64;
        let ghost before = self@;
        match self.find(buyer) {
            Some(at) => {
                let record = self.buyers[at];
                let updated = BuyerInfo {
                    purchased_amount: record.purchased_amount + sellable,
                    claimable_total: record.claimable_total + claimable,
                    ..record
                };
                self.buyers.set(at, updated);
                self.terms.sold_amount = self.terms.sold_amount + sellable;
                proof {
                    assert forall|i: int| 0 <= i < self.buyers@.len() implies (
                    #[trigger] self.buyers@[i]).owner == before.buyers[i].owner by {}
                }
            },
            None => {
                let place = self.buyers.len();
                let fresh = BuyerInfo {
                    owner: *buyer,
                    purchased_amount: sellable,
                    claimable_total: claimable,
                    claimed_so_far: 0,
                };
                self.buyers.push(fresh);
                self.index.insert((buyer.hi, buyer.lo), place);
                self.terms.sold_amount = self.terms.sold_amount + sellable;
                proof {
                    assert forall|i: int| 0 <= i < place implies (#[trigger] self.buyers@[i])
                        == before.buyers[i] by {}
                    assert forall|i: int| 0 <= i < place implies (
                    #[trigger] before.buyers[i]).owner.key() != buyer.key() by {}
                }
            },
        }
        Ok(Purchase { sellable, cost, refund: amount - sellable })
    }

    /// Enables claiming and sets the vesting baseline to `now`.
    ///
    /// Only the admin may do so (`Unauthorized`), and only once
    /// (`AlreadyEnabled`); a refused call changes nothing, so the baseline of
    /// an enabled sale can never be moved.
    pub fn enable_claiming(&mut self, caller: &Identity, now: i64) -> (result: Result<
        (),
        SaleError,
    >)
        requires
            old(self).wf(),
        ensures
            final(self).wf(),
            result == old(self)@.enable_outcome(*caller),
            final(self)@ == old(self)@.enabled(*caller, now),
            result is Err ==> final(self)@ == old(self)@,
            old(self)@.terms.claiming_enabled ==> result is Err && final(self)@.terms.vesting_start
                == old(self)@.terms.vesting_start,
    {
        if !self.is_admin(caller) {
            return Err(SaleError::Unauthorized);
        }
        if self.terms.claiming_enabled {
            return Err(SaleError::AlreadyEnabled);
        }
        self.terms.claiming_enabled = true;
        self.terms.vesting_start = now;
        Ok(())
    }

    /// Whether `caller` is the admin of the sale.
    pub fn is_admin(&self, caller: &Identity) -> (yes: bool)
        ensures
            yes == self@.is_admin(*caller),
    {
        *caller == self.terms.admin
    }

    /// Where the record of `buyer` stands and what the buyer can claim at
    /// `now`, or why there is nothing to claim.
    fn quote_at(&self, buyer: &Identity, now: i64) -> (result: Result<(usize, u64), SaleError>)
        requires
            self.wf(),
        ensures
            match result {
                Ok((at, delta)) => self@.claim_quote(*buyer, now) == Ok::<u64, SaleError>(delta)
                    && at == self@.position(*buyer) && at < self.buyers@.len(),
                Err(error) => self@.claim_quote(*buyer, now) == Err::<u64, SaleError>(error),
            },
    {
        if !self.terms.claiming_enabled {
            return Err(SaleError::ClaimingNotEnabled);
        }
        let at = match self.find(buyer) {
            Some(at) => at,
            None => {
                return Err(SaleError::UnknownBuyer);
            },
        };
        let record = self.buyers[at];
        let months = elapsed_months(self.terms.vesting_start, now);
        let vested = vested_to_date(
            record.claimable_total,
            self.terms.cliff_months,
            self.terms.monthly_release_percent,
            months,
        );
        let delta = claimable_delta(vested, record.claimed_so_far);
        if delta == 0 {
            return Err(SaleError::NothingToClaim);
        }
        Ok((at, delta))
    }

    /// The amount that `buyer` can claim at `now`: what has vested of the
    /// buyer's claimable balance and has not been claimed yet.
    ///
    /// Fails with `ClaimingNotEnabled` before claiming is enabled, with
    /// `UnknownBuyer` if there is no record for `buyer`, and with
    /// `NothingToClaim` if nothing new has vested.  This is the amount to
    /// transfer before the claim is settled with `claim_tokens`.
    pub fn claimable_now(&self, buyer: &Identity, now: i64) -> (result: Result<u64, SaleError>)
        requires
            self.wf(),
        ensures
            result == self@.claim_quote(*buyer, now),
            result matches Ok(delta) ==> 0 < delta && self@.record(*buyer).claimed_so_far + delta
                <= self@.record(*buyer).claimable_total,
    {
        match self.quote_at(buyer, now) {
            Ok((_, delta)) => {
                proof {
                    lemma_claim_quote_bounds(self@, *buyer, now);
                }
                Ok(delta)
            },
            Err(error) => Err(error),
        }
    }

    /// Settles the claim of `buyer` at `now`, given how the transfer of the
    /// amount quoted by `claimable_now` ended.
    ///
    /// Fails as `claimable_now` does; fails with `TransferFailed` if the
    /// transfer did not go through.  A failed claim changes nothing.  On
    /// success exactly the quoted amount is added to what the buyer has
    /// claimed, and returned.
    pub fn claim_tokens(
        &mut self,
        buyer: &Identity,
        now: i64,
        transfer: Result<(), InsufficientBalance>,
    ) -> (result: Result<u64, SaleError>)
        requires
            old(self).wf(),
        ensures
            final(self).wf(),
            result == old(self)@.claim_outcome(*buyer, now, transfer),
            final(self)@ == old(self)@.claimed(*buyer, now, transfer),
            result is Err ==> final(self)@ == old(self)@,
            !old(self)@.terms.claiming_enabled ==> result == Err::<u64, SaleError>(
                SaleError::ClaimingNotEnabled,
            ),
            result matches Ok(delta) ==> {
                &&& old(self)@.claim_quote(*buyer, now) == Ok::<u64, SaleError>(delta)
                &&& final(self)@.record(*buyer).claimed_so_far == old(self)@.record(
                    *buyer,
                ).claimed_so_far + delta
                &&& final(self)@.record(*buyer).claimed_so_far <= final(self)@.record(
                    *buyer,
                ).claimable_total
            },
    {
        let (at, delta) = match self.quote_at(buyer, now) {
            Ok(quote) => quote,
            Err(error) => {
                return Err(error);
            },
        };
        if transfer.is_err() {
            return Err(SaleError::TransferFailed);
        }
        let ghost before = self@;
        proof {
            lemma_claim_quote_bounds(before, *buyer, now);
            lemma_claimed(before, *buyer, now, transfer);
        }
        let record = self.buyers[at];
        let claimed_so_far = record.claimed_so_far + delta;
        self.buyers.set(at, BuyerInfo { claimed_so_far, ..record });
        proof {
            assert forall|i: int| 0 <= i < self.buyers@.len() implies (
            #[trigger] self.buyers@[i]).owner == before.buyers[i].owner by {}
        }
        Ok(delta)
    }

    /// Sets the price of a unit.  Only the admin may do so (`Unauthorized`);
    /// past purchases are not touched.
    pub fn change_token_price(&mut self, caller: &Identity, new_price: u64) -> (result: Result<
        (),
        SaleError,
    >)
        requires
            old(self).wf(),
        ensures
            final(self).wf(),
            result == old(self)@.admin_outcome(*caller),
            final(self)@ == old(self)@.repriced(*caller, new_price),
            result is Err ==> final(self)@ == old(self)@,
    {
        if !self.is_admin(caller) {
            return Err(SaleError::Unauthorized);
        }
        self.terms.unit_price = new_price;
        Ok(())
    }

    /// Decides a deposit of `amount` into the reserve, which holds
    /// `reserve_balance`: the new balance of the reserve.
    ///
    /// Only the admin may deposit (`Unauthorized`); fails with `Overflow` if
    /// the new balance does not fit.  The ledger, and with it the supply cap,
    /// is left as it is.
    pub fn deposit_tokens(&self, caller: &Identity, reserve_balance: u64, amount: u64) -> (result:
        Result<u64, SaleError>)
        ensures
            result == self@.deposit_outcome(*caller, reserve_balance, amount),
    {
        if !self.is_admin(caller) {
            return Err(SaleError::Unauthorized);
        }
        match reserve_balance.checked_add(amount) {
            Some(balance) => Ok(balance),
            None => Err(SaleError::Overflow),
        }
    }

    /// Decides a withdrawal of `amount` from the raised funds to
    /// `recipient`.
    ///
    /// Only the admin may withdraw (`Unauthorized`); fails with
    /// `InsufficientFunds` if `amount` is more than `raised_funds` less the
    /// `minimum_reserve` that has to stay.  The ledger is left as it is.
    pub fn withdraw_funds(
        &self,
        caller: &Identity,
        recipient: &Identity,
        amount: u64,
        raised_funds: u64,
        minimum_reserve: u64,
    ) -> (result: Result<Withdrawal, SaleError>)
        ensures
            result == self@.withdraw_outcome(
                *caller,
                *recipient,
                amount,
                raised_funds,
                minimum_reserve,
            ),
    {
        if !self.is_admin(caller) {
            return Err(SaleError::Unauthorized);
        }
        let withdrawable = if raised_funds >= minimum_reserve {
            raised_funds - minimum_reserve
        } else {
            0
        };
        if amount > withdrawable {
            return Err(SaleError::InsufficientFunds);
        }
        Ok(Withdrawal { recipient: *recipient, amount, remaining: raised_funds - amount })
    }

    /// The terms and counters of the sale.
    pub fn get_token_sale_data(&self) -> (data: TokenSaleData)
        ensures
            data == self@.terms,
    {
        self.terms
    }

    /// The price of one unit.
    pub fn get_price(&self) -> (price: u64)
        ensures
            price == self@.terms.unit_price,
    {
        self.terms.unit_price
    }

    /// Units sold so far.
    pub fn get_total_tokens_sold(&self) -> (sold: u64)
        ensures
            sold == self@.terms.sold_amount,
    {
        self.terms.sold_amount
    }

    /// Units left to sell under the cap.
    pub fn get_total_tokens_remaining(&self) -> (left: u64)
        requires
            self.wf(),
        ensures
            left == self@.remaining(),
    {
        self.terms.total_supply - self.terms.sold_amount
    }

    /// Whether nothing is left to sell, so that every purchase fails with
    /// `SaleClosed`.
    pub fn is_sale_closed(&self) -> (closed: bool)
        requires
            self.wf(),
        ensures
            closed == (self@.remaining() == 0),
            closed ==> forall|amount: u64, payment: u64| #[trigger]
                self@.purchase_outcome(amount, payment) == Err::<Purchase, SaleError>(
                    SaleError::SaleClosed,
                ),
    {
        self.terms.sold_amount == self.terms.total_supply
    }

    /// Whether claiming has been enabled.
    pub fn is_claim_enabled(&self) -> (enabled: bool)
        ensures
            enabled == self@.terms.claiming_enabled,
    {
        self.terms.claiming_enabled
    }

    /// Where the sale stands in its life.
    pub fn phase(&self) -> (phase: SalePhase)
        ensures
            phase == self@.phase(),
    {
        if self.terms.claiming_enabled {
            SalePhase::ClaimingActive
        } else if self.terms.sold_amount == self.terms.total_supply {
            SalePhase::SoldOut
        } else {
            SalePhase::Created
        }
    }

    /// The record of `buyer`, if the ledger has one.
    pub fn get_buyer_info(&self, buyer: &Identity) -> (info: Option<BuyerInfo>)
        requires
            self.wf(),
        ensures
            match info {
                Some(record) => self@.has_buyer(*buyer) && record == self@.record(*buyer)
                    && record.owner == *buyer,
                None => !self@.has_buyer(*buyer),
            },
    {
        match self.find(buyer) {
            Some(at) => Some(self.buyers[at]),
            None => None,
        }
    }

    /// Units bought by `buyer` so far; zero for a buyer without a record.
    pub fn get_tokens_bought(&self, buyer: &Identity) -> (bought: u64)
        requires
            self.wf(),
        ensures
            bought == (if self@.has_buyer(*buyer) {
                self@.record(*buyer).purchased_amount
            } else {
                0
            }),
    {
        match self.find(buyer) {
            Some(at) => self.buyers[at].purchased_amount,
            None => 0,
        }
    }

    /// What has vested for `buyer` at `now`, claimed or not; zero before
    /// claiming is enabled, and `None` for a buyer without a record.
    pub fn get_total_vested_tokens(&self, buyer: &Identity, now: i64) -> (vested: Option<u64>)
        requires
            self.wf(),
        ensures
            match vested {
                Some(amount) => self@.has_buyer(*buyer) && amount == (
                if self@.terms.claiming_enabled {
                    self@.vested_at(self@.record(*buyer).claimable_total, now)
                } else {
                    0
                }) && amount <= self@.record(*buyer).claimable_total,
                None => !self@.has_buyer(*buyer),
            },
    {
        match self.find(buyer) {
            Some(at) => {
                if !self.terms.claiming_enabled {
                    Some(0)
                } else {
                    let record = self.buyers[at];
                    let months = elapsed_months(self.terms.vesting_start, now);
                    Some(
                        vested_to_date(
                            record.claimable_total,
                            self.terms.cliff_months,
                            self.terms.monthly_release_percent,
                            months,
                        ),
                    )
                }
            },
            None => None,
        }
    }

    /// What is claimable over all buyers and has not been claimed yet.
    pub fn get_total_claimable_tokens(&self) -> (total: u64)
        requires
            self.wf(),
        ensures
            total == total_outstanding(self@.buyers),
            total <= self@.terms.sold_amount,
    {
        let mut total: u64 = 0;
        let mut i: usize = 0;
        proof {
            lemma_outstanding_within_purchased(self.buyers@);
        }
        while i < self.buyers.len()
            invariant
                i <= self.buyers@.len(),
                self@.valid(),
                total == total_outstanding(self.buyers@.subrange(0, i as int)),
                total_outstanding(self.buyers@) <= u64::MAX,
            decreases self.buyers@.len() - i,
        {
            let record = self.buyers[i];
            proof {
                let next = self.buyers@.subrange(0, i + 1);
                assert(next.drop_last() =~= self.buyers@.subrange(0, i as int));
                lemma_outstanding_prefix(self.buyers@, i + 1);
            }
            total = total + (record.claimable_total - record.claimed_so_far);
            i = i + 1;
        }
        assert(self.buyers@.subrange(0, i as int) =~= self.buyers@);
        total
    }

    /// Number of buyers with a record.
    pub fn buyer_count(&self) -> (count: usize)
        ensures
            count == self@.buyers.len(),
    {
        self.buyers.len()
    }

    /// The record at place `at`, counting from zero in the order of first
    /// purchases; `None` past the last record.
    pub fn buyer_at(&self, at: usize) -> (info: Option<BuyerInfo>)
        ensures
            info == (if at < self@.buyers.len() {
                Some(self@.buyers[at as int])
            } else {
                None
            }),
    {
        if at < self.buyers.len() {
            Some(self.buyers[at])
        } else {
            None
        }
    }

    /// Builds the ledger with the given terms and records, if they make a
    /// valid sale: terms within their bounds, every record within its
    /// bounds, no buyer twice, and the sold counter equal to the sum of the
    /// purchases.
    pub fn restore(terms: TokenSaleData, buyers: Vec<BuyerInfo>) -> (result: Option<TokenSale>)
        ensures
            match result {
                Some(sale) => sale.wf() && sale@ == (SaleModel { terms, buyers: buyers@ }),
                None => !(SaleModel { terms, buyers: buyers@ }).valid(),
            },
    {
        let ghost model = SaleModel { terms, buyers: buyers@ };
        if terms.sold_amount > terms.total_supply || terms.initial_claimable_percent > 100
            || terms.monthly_release_percent > 100 || (!terms.claiming_enabled
            && terms.vesting_start != 0) {
            return None;
        }
        let mut index: BTreeMap<(u128, u128), usize> = BTreeMap::new();
        let mut sum: u64 = 0;
        let mut i: usize = 0;
        while i < buyers.len()
            invariant
                i <= buyers@.len(),
                model == (SaleModel { terms, buyers: buyers@ }),
                sum == total_purchased(buyers@.subrange(0, i as int)),
                sum <= terms.sold_amount,
                forall|j: int| 0 <= j < i ==> (#[trigger] buyers@[j]).valid(),
                forall|j: int|
                    0 <= j < i ==> index@.contains_key((#[trigger] buyers@[j]).owner.key())
                        && index@[buyers@[j].owner.key()] == j,
                forall|key: (u128, u128)| #[trigger]
                    index@.contains_key(key) ==> 0 <= index@[key] < i
                        && buyers@[index@[key] as int].owner.key() == key,
            decreases buyers@.len() - i,
        {
            let record = buyers[i];
            if record.claimed_so_far > record.claimable_total || record.claimable_total
                > record.purchased_amount {
                return None;
            }
            let key = (record.owner.hi, record.owner.lo);
            if index.contains_key(&key) {
                return None;
            }
            proof {
                let next = buyers@.subrange(0, i + 1);
                assert(next.drop_last() =~= buyers@.subrange(0, i as int));
                lemma_total_purchased_prefix(buyers@, i + 1);
            }
            if sum as u128 + record.purchased_amount as u128 > terms.sold_amount as u128 {
                return None;
            }
            sum = sum + record.purchased_amount;
            index.insert(key, i);
            i = i + 1;
        }
        assert(buyers@.subrange(0, i as int) =~= buyers@);
        if sum != terms.sold_amount {
            return None;
        }
        let sale = TokenSale { terms, buyers, index };
        proof {
            assert(model.owners_distinct()) by {
                assert forall|a: int, b: int|
                    0 <= a < model.buyers.len() && 0 <= b < model.buyers.len() && a != b implies (
                #[trigger] model.buyers[a]).owner != (#[trigger] model.buyers[b]).owner by {}
            }
        }
        Some(sale)
    }
}

/// What the first records of a list have purchased is no more than what
/// all of them have.
proof fn lemma_total_purchased_prefix(buyers: Seq<BuyerInfo>, count: int)
    requires
        0 <= count <= buyers.len(),
    ensures
        0 <= total_purchased(buyers.subrange(0, count)) <= total_purchased(buyers),
    decreases buyers.len(),
{
    if count == buyers.len() {
        assert(buyers.subrange(0, count) =~= buyers);
        lemma_total_purchased_nonnegative(buyers);
    } else {
        let front = buyers.drop_last();
        lemma_total_purchased_prefix(front, count);
        assert(front.subrange(0, count) =~= buyers.subrange(0, count));
    }
}

/// What is outstanding over the first records of a valid list is no more
/// than what is outstanding over all of them.
proof fn lemma_outstanding_prefix(buyers: Seq<BuyerInfo>, count: int)
    requires
        0 <= count <= buyers.len(),
        forall|i: int| 0 <= i < buyers.len() ==> (#[trigger] buyers[i]).valid(),
    ensures
        0 <= total_outstanding(buyers.subrange(0, count)) <= total_outstanding(buyers),
    decreases buyers.len(),
{
    if count == buyers.len() {
        assert(buyers.subrange(0, count) =~= buyers);
        lemma_outstanding_within_purchased(buyers);
    } else {
        let front = buyers.drop_last();
        assert forall|i: int| 0 <= i < front.len() implies (#[trigger] front[i]).valid() by {}
        lemma_outstanding_prefix(front, count);
        assert(front.subrange(0, count) =~= buyers.subrange(0, count));
    }
}

} // verus!
