//! A token-sale ledger with cliff-then-linear vesting.
//!
//! The ledger tracks how many units of a capped supply each buyer has
//! purchased, and releases a share of every purchase to its buyer over
//! time: nothing during a cliff, then a fixed percentage per month, never
//! more than the share itself.
//!
//! * [`model`] is the mathematical model of a sale and of what each
//!   operation does to it; [`laws`] proves what holds of every sale.
//! * [`ledger`] is the executable ledger, specified against the model.
//! * [`vesting`] is the pure calculator behind claims.
//! * [`state`] is the persisted binary record, [`instruction`] the command
//!   surface in bytes, [`wire`] the integer encoding both share.
//! * [`transfer`] builds the orders for the transfer service.
//! * [`identity`] and [`error`] hold the keys and the error kinds.
//!
//! The ledger itself moves no funds and reads no clock: callers hand it the
//! authenticated caller, the time and the balances as plain values, carry
//! out the transfer orders it builds, and report how a transfer ended.

pub mod error;
pub mod identity;
pub mod instruction;
pub mod laws;
pub mod ledger;
pub mod model;
pub mod state;
pub mod transfer;
pub mod vesting;
pub mod wire;
