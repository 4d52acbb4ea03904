//! The ways an operation on the ledger can fail.

use vstd::prelude::*;

verus! {

/// Why an operation was refused.  Every error is final for the call that
/// raised it, and the call leaves the ledger as it found it.
#[derive(Clone, Copy, Debug, PartialEq, Eq, Structural)]
pub enum SaleError {
    /// The caller is not the sale's admin.
    Unauthorized,
    /// A percentage of the vesting policy is above one hundred.
    InvalidPolicy,
    /// Nothing is left to sell, or nothing was asked for.
    SaleClosed,
    /// The payment does not cover the cost, or a withdrawal exceeds the
    /// withdrawable balance.
    InsufficientFunds,
    /// A result does not fit the integer width.
    Overflow,
    /// Claiming has not been enabled yet.
    ClaimingNotEnabled,
    /// Claiming was enabled before.
    AlreadyEnabled,
    /// The ledger holds no record for the buyer.
    UnknownBuyer,
    /// Nothing new has vested since the last claim.
    NothingToClaim,
    /// The instruction bytes do not have the shape of any instruction.
    InvalidInstructionData,
    /// The transfer of a claimed amount did not go through.
    TransferFailed,
}

} // verus!
