//! The vesting calculator.
//!
//! A claimable balance unlocks on a cliff-then-linear schedule: nothing
//! during the cliff, then a fixed share of the balance for every elapsed
//! month, never more than the balance itself.  Everything here is a pure
//! function of its arguments.

use vstd::prelude::*;

verus! {

/// Length of one vesting month in seconds (thirty days).
pub const SECONDS_PER_MONTH: i64 = 2_592_000;

/// What the calculator reports for a balance at a point in time.
#[derive(Clone, Copy, Debug, PartialEq, Eq, Structural)]
pub enum Vesting {
    /// The vesting baseline has not been set.
    NotStarted,
    /// The cumulative amount unlocked to date.
    Vested(u64),
}

/// Whole months between `vesting_start` and `now`, rounded down; zero when
/// `now` is not after `vesting_start`.
pub open spec fn spec_elapsed_months(vesting_start: int, now: int) -> int {
    if now <= vesting_start {
        0
    } else {
        (now - vesting_start) / 2_592_000
    }
}

/// The amount released by one month of vesting: the given percentage of the
/// claimable balance, rounded down.
pub open spec fn spec_monthly_release(claimable_total: int, monthly_release_percent: int) -> int {
    claimable_total * monthly_release_percent / 100
}

/// The cumulative amount unlocked after `elapsed_months`: zero before the
/// cliff, then the monthly release times the elapsed months, capped at the
/// claimable balance.
pub open spec fn spec_vested_to_date(
    claimable_total: int,
    cliff_months: int,
    monthly_release_percent: int,
    elapsed_months: int,
) -> int {
    if elapsed_months < cliff_months {
        0
    } else {
        let raw = spec_monthly_release(claimable_total, monthly_release_percent) * elapsed_months;
        if raw < claimable_total {
            raw
        } else {
            claimable_total
        }
    }
}

/// The part of `vested_to_date` that has not been claimed yet; zero when the
/// claimed amount is already at or above it.
pub open spec fn spec_claimable_delta(vested_to_date: int, claimed_so_far: int) -> int {
    if vested_to_date > claimed_so_far {
        vested_to_date - claimed_so_far
    } else {
        0
    }
}

/// What the calculator reports for a balance, a schedule and a clock
/// reading.
pub open spec fn spec_calculate_vested_amount(
    claimable_total: u64,
    cliff_months: u8,
    monthly_release_percent: u8,
    vesting_start: Option<i64>,
    now: i64,
) -> Vesting {
    match vesting_start {
        None => Vesting::NotStarted,
        Some(start) => Vesting::Vested(
            spec_vested_to_date(
                claimable_total as int,
                cliff_months as int,
                monthly_release_percent as int,
                spec_elapsed_months(start as int, now as int),
            ) as u64,
        ),
    }
}

/// The vested amount is never negative and never above the claimable
/// balance, whatever the schedule and however much time has passed.
pub proof fn lemma_vested_within_balance(
    claimable_total: int,
    cliff_months: int,
    monthly_release_percent: int,
    elapsed_months: int,
)
    requires
        0 <= claimable_total,
        0 <= monthly_release_percent,
        0 <= elapsed_months,
    ensures
        0 <= spec_vested_to_date(
            claimable_total,
            cliff_months,
            monthly_release_percent,
            elapsed_months,
        ) <= claimable_total,
{
    let monthly = spec_monthly_release(claimable_total, monthly_release_percent);
    assert(0 <= claimable_total * monthly_release_percent) by (nonlinear_arith)
        requires
            0 <= claimable_total,
            0 <= monthly_release_percent,
    ;
    assert(0 <= monthly * elapsed_months) by (nonlinear_arith)
        requires
            0 <= monthly,
            0 <= elapsed_months,
    ;
}

/// More elapsed time never lowers the vested amount.
pub proof fn lemma_vested_monotonic(
    claimable_total: int,
    cliff_months: int,
    monthly_release_percent: int,
    earlier: int,
    later: int,
)
    requires
        0 <= claimable_total,
        0 <= monthly_release_percent,
        0 <= earlier <= later,
    ensures
        spec_vested_to_date(claimable_total, cliff_months, monthly_release_percent, earlier)
            <= spec_vested_to_date(claimable_total, cliff_months, monthly_release_percent, later),
{
    let monthly = spec_monthly_release(claimable_total, monthly_release_percent);
    lemma_vested_within_balance(claimable_total, cliff_months, monthly_release_percent, later);
    assert(0 <= claimable_total * monthly_release_percent) by (nonlinear_arith)
        requires
            0 <= claimable_total,
            0 <= monthly_release_percent,
    ;
    assert(monthly * earlier <= monthly * later) by (nonlinear_arith)
        requires
            0 <= monthly,
            earlier <= later,
    ;
}

/// Before the cliff has passed nothing is vested.
pub proof fn lemma_cliff_blocks_release(
    claimable_total: int,
    cliff_months: int,
    monthly_release_percent: int,
    elapsed_months: int,
)
    requires
        elapsed_months < cliff_months,
    ensures
        spec_vested_to_date(claimable_total, cliff_months, monthly_release_percent, elapsed_months)
            == 0,
{
}

/// Whole months elapsed since `vesting_start` at time `now`.
pub fn elapsed_months(vesting_start: i64, now: i64) -> (months: u64)
    ensures
        months == spec_elapsed_months(vesting_start as int, now as int),
{
    if now <= vesting_start {
        0
    } else {
        let span: i128 = now as i128 - vesting_start as i128;
        (span / 2_592_000) as u64
    }
}

/// The cumulative amount unlocked after `elapsed_months` for a balance of
/// `claimable_total`.
pub fn vested_to_date(
    claimable_total: u64,
    cliff_months: u8,
    monthly_release_percent: u8,
    elapsed_months: u64,
) -> (vested: u64)
    ensures
        vested == spec_vested_to_date(
            claimable_total as int,
            cliff_months as int,
            monthly_release_percent as int,
            elapsed_months as int,
        ),
        vested <= claimable_total,
{
    if elapsed_months < cliff_months as u64 {
        return 0;
    }
    assert(claimable_total * monthly_release_percent <= 0xffff_ffff_ffff_ffff * 0xff)
        by (nonlinear_arith)
        requires
            0 <= claimable_total <= 0xffff_ffff_ffff_ffff,
            0 <= monthly_release_percent <= 0xff,
    ;
    let monthly: u128 = (claimable_total as u128 * monthly_release_percent as u128) / 100;
    assert(monthly == spec_monthly_release(
        claimable_total as int,
        monthly_release_percent as int,
    ));
    match monthly.checked_mul(elapsed_months as u128) {
        Some(raw) => {
            if raw < claimable_total as u128 {
                raw as u64
            } else {
                claimable_total
            }
        },
        None => claimable_total,
    }
}

/// The part of `vested_to_date` that is still to be claimed.
pub fn claimable_delta(vested_to_date: u64, claimed_so_far: u64) -> (delta: u64)
    ensures
        delta == spec_claimable_delta(vested_to_date as int, claimed_so_far as int),
{
    if vested_to_date > claimed_so_far {
        vested_to_date - claimed_so_far
    } else {
        0
    }
}

/// The calculator: the cumulative amount of `claimable_total` unlocked at
/// time `now`, or `NotStarted` while no vesting baseline is set.
pub fn calculate_vested_amount(
    claimable_total: u64,
    cliff_months: u8,
    monthly_release_percent: u8,
    vesting_start: Option<i64>,
    now: i64,
) -> (result: Vesting)
    ensures
        result == spec_calculate_vested_amount(
            claimable_total,
            cliff_months,
            monthly_release_percent,
            vesting_start,
            now,
        ),
        result matches Vesting::Vested(amount) ==> amount <= claimable_total,
{
    match vesting_start {
        None => Vesting::NotStarted,
        Some(start) => {
            let months = elapsed_months(start, now);
            Vesting::Vested(
                vested_to_date(claimable_total, cliff_months, monthly_release_percent, months),
            )
        },
    }
}

} // verus!
