//! The transaction data this core reads: inputs that reference previous
//! outputs, and outputs that carry a value.

use vstd::prelude::*;

verus! {

/// A reference to the output of an earlier transaction: the identifier of
/// that transaction and the zero-based position of the output in its output
/// sequence.
#[derive(Clone, Copy, PartialEq, Eq, Structural, Debug)]
pub struct OutPoint {
    /// Identifier of the transaction that carries the referenced output.
    pub hash: u64,
    /// Zero-based position of the referenced output.
    pub index: u32,
}

/// A transaction input.  It carries no value of its own; its value is the
/// value of the previous output it references, resolved externally.
#[derive(Clone, Copy, PartialEq, Eq, Structural, Debug)]
pub struct TransactionInput {
    /// The previous output this input consumes.
    pub previous_output: OutPoint,
}

/// A transaction output: a non-negative value in the smallest indivisible
/// monetary unit.  Its spending condition is opaque to this core.
#[derive(Clone, Copy, PartialEq, Eq, Structural, Debug)]
pub struct TransactionOutput {
    /// Value of the output.
    pub value: u64,
}

/// A transaction: an ordered sequence of inputs and an ordered sequence of
/// outputs.  Order matters for indexing into the output sequence, but fee
/// aggregation is order-independent.
#[derive(Clone, Debug)]
pub struct Transaction {
    /// The inputs, each consuming one previous output.
    pub inputs: Vec<TransactionInput>,
    /// The outputs emitted by this transaction.
    pub outputs: Vec<TransactionOutput>,
}

} // verus!
