//! Fee accounting for a single blockchain transaction.
//!
//! A transaction spends previous outputs (resolved through a
//! [`provider::TransactionProvider`]) and emits new outputs.  The fee is the
//! resolved input total minus the output total, clamped at zero, and the fee
//! rate is the fee divided by the transaction's serialized byte size.  Both
//! are computed by [`fee::transaction_fee`] and [`fee::transaction_fee_rate`].

pub mod fee;
pub mod provider;
pub mod sums;
pub mod transaction;
