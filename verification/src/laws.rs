//! What holds of every sale: the invariant and the laws of the operations,
//! stated over the model and proved.

use vstd::prelude::*;
use crate::error::SaleError;
use crate::identity::Identity;
use crate::model::{
    total_outstanding, total_purchased, BuyerInfo, InsufficientBalance, Operation, Purchase,
    SaleModel, SalePhase,
};
use crate::vesting::{
    lemma_cliff_blocks_release, lemma_vested_monotonic, lemma_vested_within_balance,
    spec_elapsed_months,
};

verus! {

/// Adding a record adds its purchased amount to the sum.
pub proof fn lemma_total_purchased_push(buyers: Seq<BuyerInfo>, record: BuyerInfo)
    ensures
        total_purchased(buyers.push(record)) == total_purchased(buyers) + record.purchased_amount,
{
    assert(buyers.push(record).drop_last() =~= buyers);
}

/// Replacing a record changes the sum by the difference of the purchased
/// amounts.
pub proof fn lemma_total_purchased_update(buyers: Seq<BuyerInfo>, at: int, record: BuyerInfo)
    requires
        0 <= at < buyers.len(),
    ensures
        total_purchased(buyers.update(at, record)) == total_purchased(buyers)
            - buyers[at].purchased_amount + record.purchased_amount,
    decreases buyers.len(),
{
    let updated = buyers.update(at, record);
    if at == buyers.len() - 1 {
        assert(updated.drop_last() =~= buyers.drop_last());
    } else {
        lemma_total_purchased_update(buyers.drop_last(), at, record);
        assert(updated.drop_last() =~= buyers.drop_last().update(at, record));
    }
}

/// No record has bought more than all records together.
pub proof fn lemma_purchased_within_total(buyers: Seq<BuyerInfo>, at: int)
    requires
        0 <= at < buyers.len(),
    ensures
        buyers[at].purchased_amount <= total_purchased(buyers),
        0 <= total_purchased(buyers),
    decreases buyers.len(),
{
    lemma_total_purchased_nonnegative(buyers.drop_last());
    if at < buyers.len() - 1 {
        lemma_purchased_within_total(buyers.drop_last(), at);
    }
}

/// The sum of the purchased amounts is not negative.
pub proof fn lemma_total_purchased_nonnegative(buyers: Seq<BuyerInfo>)
    ensures
        0 <= total_purchased(buyers),
    decreases buyers.len(),
{
    if buyers.len() > 0 {
        lemma_total_purchased_nonnegative(buyers.drop_last());
    }
}

/// What is outstanding over valid records is not negative and not more than
/// what was purchased.
pub proof fn lemma_outstanding_within_purchased(buyers: Seq<BuyerInfo>)
    requires
        forall|i: int| 0 <= i < buyers.len() ==> (#[trigger] buyers[i]).valid(),
    ensures
        0 <= total_outstanding(buyers) <= total_purchased(buyers),
    decreases buyers.len(),
{
    if buyers.len() > 0 {
        let front = buyers.drop_last();
        assert forall|i: int| 0 <= i < front.len() implies (#[trigger] front[i]).valid() by {}
        lemma_outstanding_within_purchased(front);
    }
}

/// In a valid sale the record at `at` is the record of its owner.
pub proof fn lemma_position_of_owner(sale: SaleModel, at: int)
    requires
        sale.owners_distinct(),
        0 <= at < sale.buyers.len(),
    ensures
        sale.has_buyer(sale.buyers[at].owner),
        sale.position(sale.buyers[at].owner) == at,
        sale.record(sale.buyers[at].owner) == sale.buyers[at],
{
    let who = sale.buyers[at].owner;
    let found = sale.position(who);
    assert(0 <= found < sale.buyers.len() && sale.buyers[found].owner == who);
}

/// A freshly opened sale is valid, provided its percentages are.
pub proof fn lemma_opened_valid(
    admin: Identity,
    reserve_account: Identity,
    unit_price: u64,
    total_supply: u64,
    cliff_months: u8,
    monthly_release_percent: u8,
    initial_claimable_percent: u8,
)
    requires
        monthly_release_percent <= 100,
        initial_claimable_percent <= 100,
    ensures
        SaleModel::opened(
            admin,
            reserve_account,
            unit_price,
            total_supply,
            cliff_months,
            monthly_release_percent,
            initial_claimable_percent,
        ).valid(),
{
}

/// The share of a purchase that is released by vesting is not negative and
/// not more than the purchase.
pub proof fn lemma_initial_claimable_bounds(sale: SaleModel, sellable: int)
    requires
        sale.terms.initial_claimable_percent <= 100,
        0 <= sellable,
    ensures
        0 <= sale.initial_claimable(sellable) <= sellable,
{
    let percent = sale.terms.initial_claimable_percent as int;
    assert(0 <= sellable * percent <= sellable * 100) by (nonlinear_arith)
        requires
            0 <= sellable,
            0 <= percent <= 100,
    ;
}

/// Crediting a buyer with units that are left under the cap keeps the sale
/// valid, adds exactly those units to the buyer and to the sold counter, and
/// leaves every other buyer alone.
pub proof fn lemma_credited(sale: SaleModel, buyer: Identity, sellable: int)
    requires
        sale.valid(),
        0 <= sellable <= sale.terms.total_supply - sale.terms.sold_amount,
    ensures
        sale.credited(buyer, sellable).valid(),
        sale.credited(buyer, sellable).has_buyer(buyer),
        sale.credited(buyer, sellable).terms.sold_amount == sale.terms.sold_amount + sellable,
        sale.credited(buyer, sellable).record(buyer).purchased_amount == (if sale.has_buyer(
            buyer,
        ) {
            sale.record(buyer).purchased_amount as int
        } else {
            0
        }) + sellable,
        sale.credited(buyer, sellable).record(buyer).claimable_total == (if sale.has_buyer(
            buyer,
        ) {
            sale.record(buyer).claimable_total as int
        } else {
            0
        }) + sale.initial_claimable(sellable),
        sale.credited(buyer, sellable).record(buyer).claimed_so_far == (if sale.has_buyer(
            buyer,
        ) {
            sale.record(buyer).claimed_so_far
        } else {
            0
        }),
        forall|other: Identity|
            other != buyer ==> (#[trigger] sale.credited(buyer, sellable).has_buyer(other)
                == sale.has_buyer(other)),
        forall|other: Identity|
            other != buyer && sale.has_buyer(other) ==> (#[trigger] sale.credited(
                buyer,
                sellable,
            ).record(other)) == sale.record(other),
{
    let after = sale.credited(buyer, sellable);
    lemma_initial_claimable_bounds(sale, sellable);
    if sale.has_buyer(buyer) {
        let at = sale.position(buyer);
        lemma_purchased_within_total(sale.buyers, at);
        lemma_total_purchased_update(sale.buyers, at, after.buyers[at]);
        assert forall|i: int| 0 <= i < after.buyers.len() implies (
        #[trigger] after.buyers[i]).valid() by {}
        assert forall|i: int| 0 <= i < after.buyers.len() implies (
        #[trigger] after.buyers[i]).owner == sale.buyers[i].owner by {}
        assert(after.owners_distinct()) by {
            assert forall|i: int, j: int|
                0 <= i < after.buyers.len() && 0 <= j < after.buyers.len() && i != j implies (
            #[trigger] after.buyers[i]).owner != (#[trigger] after.buyers[j]).owner by {}
        }
        lemma_position_of_owner(after, at);
        assert forall|other: Identity| other != buyer implies (#[trigger] after.has_buyer(other))
            == sale.has_buyer(other) by {
            if sale.has_buyer(other) {
                let k = sale.position(other);
                assert(after.buyers[k].owner == other);
            }
        }
        assert forall|other: Identity| other != buyer && sale.has_buyer(other) implies (
        #[trigger] after.record(other)) == sale.record(other) by {
            let k = sale.position(other);
            lemma_position_of_owner(after, k);
        }
    } else {
        let fresh = after.buyers[sale.buyers.len() as int];
        lemma_total_purchased_push(sale.buyers, fresh);
        assert forall|i: int| 0 <= i < after.buyers.len() implies (
        #[trigger] after.buyers[i]).valid() by {}
        assert(after.owners_distinct()) by {
            assert forall|i: int, j: int|
                0 <= i < after.buyers.len() && 0 <= j < after.buyers.len() && i != j implies (
            #[trigger] after.buyers[i]).owner != (#[trigger] after.buyers[j]).owner by {}
        }
        lemma_position_of_owner(after, sale.buyers.len() as int);
        assert forall|other: Identity| other != buyer implies (#[trigger] after.has_buyer(other))
            == sale.has_buyer(other) by {
            if sale.has_buyer(other) {
                let k = sale.position(other);
                assert(after.buyers[k].owner == other);
            }
        }
        assert forall|other: Identity| other != buyer && sale.has_buyer(other) implies (
        #[trigger] after.record(other)) == sale.record(other) by {
            let k = sale.position(other);
            lemma_position_of_owner(after, k);
        }
    }
}

/// A purchase keeps a valid sale valid.
pub proof fn lemma_purchased_valid(sale: SaleModel, buyer: Identity, amount: u64, payment: u64)
    requires
        sale.valid(),
    ensures
        sale.purchased(buyer, amount, payment).valid(),
{
    if sale.purchase_outcome(amount, payment) is Ok {
        lemma_credited(sale, buyer, sale.sellable(amount));
    }
}

/// The amount quoted for a claim is positive and brings the claimed amount
/// to no more than the claimable balance.
pub proof fn lemma_claim_quote_bounds(sale: SaleModel, buyer: Identity, now: i64)
    requires
        sale.valid(),
        sale.claim_quote(buyer, now) is Ok,
    ensures
        sale.has_buyer(buyer),
        0 < sale.claim_quote(buyer, now)->Ok_0,
        sale.record(buyer).claimed_so_far + sale.claim_quote(buyer, now)->Ok_0 == sale.vested_at(
            sale.record(buyer).claimable_total,
            now,
        ),
        sale.record(buyer).claimed_so_far + sale.claim_quote(buyer, now)->Ok_0
            <= sale.record(buyer).claimable_total,
{
    let record = sale.record(buyer);
    lemma_vested_within_balance(
        record.claimable_total as int,
        sale.terms.cliff_months as int,
        sale.terms.monthly_release_percent as int,
        spec_elapsed_months(sale.terms.vesting_start as int, now as int),
    );
}

/// A claim keeps a valid sale valid, never lowers what the buyer has
/// claimed, and touches no other record and no term of the sale.
pub proof fn lemma_claimed(
    sale: SaleModel,
    buyer: Identity,
    now: i64,
    transfer: Result<(), InsufficientBalance>,
)
    requires
        sale.valid(),
    ensures
        sale.claimed(buyer, now, transfer).valid(),
        sale.claimed(buyer, now, transfer).terms == sale.terms,
        sale.claimed(buyer, now, transfer).buyers.len() == sale.buyers.len(),
        forall|who: Identity| #[trigger]
            sale.claimed(buyer, now, transfer).has_buyer(who) == sale.has_buyer(who),
        forall|who: Identity|
            sale.has_buyer(who) && who != buyer ==> (#[trigger] sale.claimed(
                buyer,
                now,
                transfer,
            ).record(who)) == sale.record(who),
        sale.has_buyer(buyer) ==> {
            let before = sale.record(buyer);
            let after = sale.claimed(buyer, now, transfer).record(buyer);
            &&& after.owner == before.owner
            &&& after.purchased_amount == before.purchased_amount
            &&& after.claimable_total == before.claimable_total
            &&& before.claimed_so_far <= after.claimed_so_far <= after.claimable_total
            &&& sale.claim_outcome(buyer, now, transfer) matches Ok(delta)
                ==> after.claimed_so_far == before.claimed_so_far + delta
            &&& sale.claim_outcome(buyer, now, transfer) is Err ==> after == before
        },
{
    let after = sale.claimed(buyer, now, transfer);
    if sale.claim_outcome(buyer, now, transfer) is Ok {
        lemma_claim_quote_bounds(sale, buyer, now);
        let at = sale.position(buyer);
        lemma_total_purchased_update(sale.buyers, at, after.buyers[at]);
        assert forall|i: int| 0 <= i < after.buyers.len() implies (
        #[trigger] after.buyers[i]).valid() by {}
        assert(after.owners_distinct()) by {
            assert forall|i: int, j: int|
                0 <= i < after.buyers.len() && 0 <= j < after.buyers.len() && i != j implies (
            #[trigger] after.buyers[i]).owner != (#[trigger] after.buyers[j]).owner by {}
        }
        lemma_position_of_owner(after, at);
        assert forall|who: Identity| #[trigger] after.has_buyer(who) == sale.has_buyer(who) by {
            if sale.has_buyer(who) {
                let k = sale.position(who);
                assert(after.buyers[k].owner == who);
            }
        }
        assert forall|who: Identity| sale.has_buyer(who) && who != buyer implies (
        #[trigger] after.record(who)) == sale.record(who) by {
            let k = sale.position(who);
            lemma_position_of_owner(after, k);
        }
    }
}

/// Every operation keeps a valid sale valid.
pub proof fn lemma_step_valid(sale: SaleModel, operation: Operation)
    requires
        sale.valid(),
    ensures
        sale.step(operation).valid(),
{
    match operation {
        Operation::Buy { buyer, amount, payment } => {
            lemma_purchased_valid(sale, buyer, amount, payment);
        },
        Operation::EnableClaiming { caller, now } => {},
        Operation::Claim { buyer, now, transfer } => {
            lemma_claimed(sale, buyer, now, transfer);
        },
        Operation::ChangePrice { caller, new_price } => {},
    }
}

/// The invariant: after any sequence of operations on a valid sale, no more
/// is sold than the supply cap, and no buyer has claimed more than is
/// claimable for that buyer.
pub proof fn lemma_invariant_holds_after_any_operations(
    sale: SaleModel,
    operations: Seq<Operation>,
)
    requires
        sale.valid(),
    ensures
        sale.run(operations).valid(),
        sale.run(operations).terms.sold_amount <= sale.run(operations).terms.total_supply,
        forall|i: int|
            0 <= i < sale.run(operations).buyers.len() ==> (#[trigger] sale.run(
                operations,
            ).buyers[i]).claimed_so_far <= sale.run(operations).buyers[i].claimable_total,
    decreases operations.len(),
{
    if operations.len() > 0 {
        lemma_invariant_holds_after_any_operations(sale, operations.drop_last());
        lemma_step_valid(sale.run(operations.drop_last()), operations.last());
    }
    let after = sale.run(operations);
    assert forall|i: int| 0 <= i < after.buyers.len() implies (
    #[trigger] after.buyers[i]).claimed_so_far <= after.buyers[i].claimable_total by {}
}

/// One operation never removes a buyer and never lowers what a buyer has
/// claimed.
pub proof fn lemma_step_claimed_monotonic(sale: SaleModel, operation: Operation, who: Identity)
    requires
        sale.valid(),
        sale.has_buyer(who),
    ensures
        sale.step(operation).has_buyer(who),
        sale.record(who).claimed_so_far <= sale.step(operation).record(who).claimed_so_far,
        sale.step(operation).record(who).claimed_so_far <= sale.step(operation).record(
            who,
        ).claimable_total,
{
    let after = sale.step(operation);
    lemma_step_valid(sale, operation);
    match operation {
        Operation::Buy { buyer, amount, payment } => {
            if sale.purchase_outcome(amount, payment) is Ok {
                lemma_credited(sale, buyer, sale.sellable(amount));
            }
        },
        Operation::EnableClaiming { caller, now } => {
            assert(after.has_buyer(who));
        },
        Operation::Claim { buyer, now, transfer } => {
            lemma_claimed(sale, buyer, now, transfer);
        },
        Operation::ChangePrice { caller, new_price } => {
            assert(after.has_buyer(who));
        },
    }
}

/// Monotonicity: over any sequence of operations, claims at any times among
/// them, what a buyer has claimed never goes down and never exceeds the
/// buyer's claimable balance.
pub proof fn lemma_claimed_never_decreases(
    sale: SaleModel,
    operations: Seq<Operation>,
    who: Identity,
)
    requires
        sale.valid(),
        sale.has_buyer(who),
    ensures
        sale.run(operations).has_buyer(who),
        sale.record(who).claimed_so_far <= sale.run(operations).record(who).claimed_so_far,
        sale.run(operations).record(who).claimed_so_far <= sale.run(operations).record(
            who,
        ).claimable_total,
    decreases operations.len(),
{
    if operations.len() > 0 {
        let front = operations.drop_last();
        lemma_claimed_never_decreases(sale, front, who);
        lemma_invariant_holds_after_any_operations(sale, front);
        lemma_step_claimed_monotonic(sale.run(front), operations.last(), who);
    }
}

/// A purchase whose cost does not fit the integer width fails with
/// `Overflow` and changes nothing.
pub proof fn lemma_purchase_overflow(sale: SaleModel, buyer: Identity, amount: u64, payment: u64)
    requires
        sale.sellable(amount) * sale.terms.unit_price > u64::MAX,
    ensures
        sale.purchase_outcome(amount, payment) == Err::<Purchase, SaleError>(SaleError::Overflow),
        sale.purchased(buyer, amount, payment) == sale,
{
    assert(sale.sellable(amount) != 0) by (nonlinear_arith)
        requires
            sale.sellable(amount) * sale.terms.unit_price > u64::MAX,
    ;
}

/// Purchase accumulation: two purchases by one buyer leave the sold
/// counter and the buyer's purchased amount exactly as one purchase of the
/// sum does, and the buyer's claimable balance at most one unit lower (each
/// purchase rounds its claimable share down).  Stated for payments that
/// cover the asked amounts at a price that fits.
pub proof fn lemma_purchases_accumulate(
    sale: SaleModel,
    buyer: Identity,
    first: u64,
    second: u64,
    payment_first: u64,
    payment_second: u64,
    payment_both: u64,
)
    requires
        sale.valid(),
        first + second <= u64::MAX,
        (first + second) * sale.terms.unit_price <= u64::MAX,
        payment_first >= first * sale.terms.unit_price,
        payment_second >= second * sale.terms.unit_price,
        payment_both >= (first + second) * sale.terms.unit_price,
    ensures
        ({
            let two = sale.purchased(buyer, first, payment_first).purchased(
                buyer,
                second,
                payment_second,
            );
            let one = sale.purchased(buyer, (first + second) as u64, payment_both);
            &&& two.terms == one.terms
            &&& two.has_buyer(buyer) == one.has_buyer(buyer)
            &&& two.has_buyer(buyer) ==> {
                &&& two.record(buyer).purchased_amount == one.record(buyer).purchased_amount
                &&& two.record(buyer).claimed_so_far == one.record(buyer).claimed_so_far
                &&& two.record(buyer).claimable_total <= one.record(buyer).claimable_total
                    <= two.record(buyer).claimable_total + 1
            }
        }),
{
    let price = sale.terms.unit_price as int;
    let percent = sale.terms.initial_claimable_percent as int;
    let both = (first + second) as u64;
    let middle = sale.purchased(buyer, first, payment_first);
    let sold_first = sale.sellable(first);
    let sold_both = sale.sellable(both);
    assert(sold_first * price <= first * price && sold_both * price <= both * price)
        by (nonlinear_arith)
        requires
            0 <= sold_first <= first,
            0 <= sold_both <= both,
            0 <= price,
    ;
    assert(first * price <= (first + second) * price) by (nonlinear_arith)
        requires
            0 <= first,
            0 <= second,
            0 <= price,
    ;
    lemma_purchased_valid(sale, buyer, first, payment_first);
    if sold_first > 0 {
        lemma_credited(sale, buyer, sold_first);
    }
    let sold_second = middle.sellable(second);
    assert(sold_second * price <= second * price) by (nonlinear_arith)
        requires
            0 <= sold_second <= second,
            0 <= price,
    ;
    assert(second * price <= (first + second) * price) by (nonlinear_arith)
        requires
            0 <= first,
            0 <= second,
            0 <= price,
    ;
    if sold_second > 0 {
        lemma_credited(middle, buyer, sold_second);
    }
    if sold_both > 0 {
        lemma_credited(sale, buyer, sold_both);
    }
    assert((sold_first + sold_second) * percent == sold_first * percent + sold_second * percent)
        by (nonlinear_arith);
    assert(0 <= sold_first * percent && 0 <= sold_second * percent) by (nonlinear_arith)
        requires
            0 <= sold_first,
            0 <= sold_second,
            0 <= percent,
    ;
}

/// A claim before claiming is enabled fails with `ClaimingNotEnabled` and
/// changes nothing.
pub proof fn lemma_claim_needs_enabling(
    sale: SaleModel,
    buyer: Identity,
    now: i64,
    transfer: Result<(), InsufficientBalance>,
)
    requires
        !sale.terms.claiming_enabled,
    ensures
        sale.claim_outcome(buyer, now, transfer) == Err::<u64, SaleError>(
            SaleError::ClaimingNotEnabled,
        ),
        sale.claimed(buyer, now, transfer) == sale,
{
}

/// A claim during the cliff finds nothing vested: it fails with
/// `NothingToClaim` and changes nothing.
pub proof fn lemma_claim_during_cliff(
    sale: SaleModel,
    buyer: Identity,
    now: i64,
    transfer: Result<(), InsufficientBalance>,
)
    requires
        sale.terms.claiming_enabled,
        sale.has_buyer(buyer),
        spec_elapsed_months(sale.terms.vesting_start as int, now as int)
            < sale.terms.cliff_months,
    ensures
        sale.vested_at(sale.record(buyer).claimable_total, now) == 0,
        sale.claim_quote(buyer, now) == Err::<u64, SaleError>(SaleError::NothingToClaim),
        sale.claim_outcome(buyer, now, transfer) == Err::<u64, SaleError>(
            SaleError::NothingToClaim,
        ),
        sale.claimed(buyer, now, transfer) == sale,
{
    lemma_cliff_blocks_release(
        sale.record(buyer).claimable_total as int,
        sale.terms.cliff_months as int,
        sale.terms.monthly_release_percent as int,
        spec_elapsed_months(sale.terms.vesting_start as int, now as int),
    );
}

/// A claim at a later time is quoted at least what has vested before: the
/// vested amount of a balance never goes down as the clock advances.
pub proof fn lemma_vested_at_monotonic(
    sale: SaleModel,
    claimable_total: u64,
    earlier: i64,
    later: i64,
)
    requires
        earlier <= later,
    ensures
        0 <= sale.vested_at(claimable_total, earlier) <= sale.vested_at(claimable_total, later)
            <= claimable_total,
{
    let start = sale.terms.vesting_start as int;
    let months_earlier = spec_elapsed_months(start, earlier as int);
    let months_later = spec_elapsed_months(start, later as int);
    lemma_vested_monotonic(
        claimable_total as int,
        sale.terms.cliff_months as int,
        sale.terms.monthly_release_percent as int,
        months_earlier,
        months_later,
    );
    lemma_vested_within_balance(
        claimable_total as int,
        sale.terms.cliff_months as int,
        sale.terms.monthly_release_percent as int,
        months_earlier,
    );
    lemma_vested_within_balance(
        claimable_total as int,
        sale.terms.cliff_months as int,
        sale.terms.monthly_release_percent as int,
        months_later,
    );
}

/// Claiming is enabled once: after it has been enabled at `first_now`,
/// every further attempt fails, with `AlreadyEnabled` when the admin makes
/// it, and leaves the vesting baseline at `first_now`.
pub proof fn lemma_enable_claiming_once(
    sale: SaleModel,
    first_caller: Identity,
    first_now: i64,
    second_caller: Identity,
    second_now: i64,
)
    requires
        sale.enable_outcome(first_caller) is Ok,
    ensures
        ({
            let once = sale.enabled(first_caller, first_now);
            let twice = once.enabled(second_caller, second_now);
            &&& once.terms.claiming_enabled
            &&& once.terms.vesting_start == first_now
            &&& once.enable_outcome(second_caller) is Err
            &&& once.is_admin(second_caller) ==> once.enable_outcome(second_caller) == Err::<
                (),
                SaleError,
            >(SaleError::AlreadyEnabled)
            &&& twice == once
            &&& twice.terms.vesting_start == first_now
        }),
{
}

/// Once claiming is enabled, no sequence of operations moves the vesting
/// baseline or disables claiming again: the phase in which claims are
/// served is final.
pub proof fn lemma_baseline_is_fixed(sale: SaleModel, operations: Seq<Operation>)
    requires
        sale.valid(),
        sale.terms.claiming_enabled,
    ensures
        sale.run(operations).terms.claiming_enabled,
        sale.run(operations).terms.vesting_start == sale.terms.vesting_start,
        sale.run(operations).phase() == SalePhase::ClaimingActive,
    decreases operations.len(),
{
    if operations.len() > 0 {
        let front = operations.drop_last();
        lemma_baseline_is_fixed(sale, front);
        lemma_invariant_holds_after_any_operations(sale, front);
        match operations.last() {
            Operation::Buy { buyer, amount, payment } => {},
            Operation::EnableClaiming { caller, now } => {},
            Operation::Claim { buyer, now, transfer } => {
            },
            Operation::ChangePrice { caller, new_price } => {},
        }
    }
}

/// A claim is all or nothing: the amount ordered for transfer is the amount
/// quoted; settling the claim commits exactly that amount if the transfer
/// went through, and changes nothing if it failed.
pub proof fn lemma_claim_is_all_or_nothing(
    sale: SaleModel,
    buyer: Identity,
    now: i64,
    token_program: Identity,
)
    requires
        sale.valid(),
        sale.claim_order_outcome(buyer, now, token_program) is Ok,
    ensures
        ({
            let delta = sale.claim_order_outcome(buyer, now, token_program)->Ok_0;
            let done = Ok::<(), InsufficientBalance>(());
            let failed = Err::<(), InsufficientBalance>(InsufficientBalance);
            &&& sale.claim_quote(buyer, now) == Ok::<u64, SaleError>(delta)
            &&& sale.claim_outcome(buyer, now, done) == Ok::<u64, SaleError>(delta)
            &&& sale.claimed(buyer, now, done).record(buyer).claimed_so_far == sale.record(
                buyer,
            ).claimed_so_far + delta
            &&& sale.claim_outcome(buyer, now, failed) == Err::<u64, SaleError>(
                SaleError::TransferFailed,
            )
            &&& sale.claimed(buyer, now, failed) == sale
        }),
{
    lemma_claimed(sale, buyer, now, Ok(()));
}

/// A settled claim leaves nothing to claim at the same time: claiming again
/// fails with `NothingToClaim`.
pub proof fn lemma_claim_leaves_nothing(sale: SaleModel, buyer: Identity, now: i64)
    requires
        sale.valid(),
        sale.claim_quote(buyer, now) is Ok,
    ensures
        sale.claimed(buyer, now, Ok(())).claim_quote(buyer, now) == Err::<u64, SaleError>(
            SaleError::NothingToClaim,
        ),
{
    lemma_claim_quote_bounds(sale, buyer, now);
    lemma_claimed(sale, buyer, now, Ok(()));
}

} // verus!
