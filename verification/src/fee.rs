//! Fee and fee-rate computation: resolve every input's previous output,
//! total the input and output values, and derive the fee as a saturating
//! difference and the fee rate by floor division.

use vstd::prelude::*;

use crate::provider::TransactionProvider;
use crate::sums::{
    lemma_sum_by_nonneg, lemma_sum_by_permutation, lemma_sum_by_skip_step, sum_by,
};
use crate::transaction::{OutPoint, Transaction, TransactionInput, TransactionOutput};

verus! {

/// Why a fee computation halted instead of producing a number.  Each
/// variant is a violation of the caller's obligations, kept distinct from a
/// legitimate zero fee.
#[derive(Clone, Copy, PartialEq, Eq, Structural, Debug)]
pub enum FeeError {
    /// An input references a transaction the provider does not know.
    UnknownPreviousTransaction,
    /// An input references an output position past the end of the
    /// referenced transaction's output sequence.
    OutputIndexOutOfBounds,
    /// A serialized byte size of zero was supplied to the fee-rate
    /// computation; a serialized transaction always has non-zero size.
    ZeroSerializedSize,
}

/// The previous output `out_point` references exists under `txs`: the
/// transaction is known and the output position is within bounds.
pub open spec fn out_point_resolvable(txs: Map<u64, Transaction>, out_point: OutPoint) -> bool {
    &&& txs.contains_key(out_point.hash)
    &&& (out_point.index as int) < txs[out_point.hash].outputs@.len()
}

/// Value of the previous output `out_point` references; zero where it does
/// not resolve (such an input contributes nothing to a total, but the
/// computation itself reports the failure instead of using this value).
pub open spec fn out_point_value(txs: Map<u64, Transaction>, out_point: OutPoint) -> int {
    if out_point_resolvable(txs, out_point) {
        txs[out_point.hash].outputs@[out_point.index as int].value as int
    } else {
        0
    }
}

/// The contribution of one input: the value of the previous output it
/// references.
pub open spec fn input_value_fn(txs: Map<u64, Transaction>) -> spec_fn(TransactionInput) -> int {
    |input: TransactionInput| out_point_value(txs, input.previous_output)
}

/// The contribution of one output: its value.
pub open spec fn output_value_fn() -> spec_fn(TransactionOutput) -> int {
    |output: TransactionOutput| output.value as int
}

/// Total value the inputs draw from their resolved previous outputs.
pub open spec fn input_sum(txs: Map<u64, Transaction>, inputs: Seq<TransactionInput>) -> int {
    sum_by(inputs, input_value_fn(txs))
}

/// Total value the outputs emit.
pub open spec fn output_sum(outputs: Seq<TransactionOutput>) -> int {
    sum_by(outputs, output_value_fn())
}

/// Every input's previous output resolves under `txs`.
pub open spec fn all_inputs_resolvable(
    txs: Map<u64, Transaction>,
    inputs: Seq<TransactionInput>,
) -> bool {
    forall|i: int|
        0 <= i < inputs.len() ==> out_point_resolvable(txs, #[trigger] inputs[i].previous_output)
}

/// Position of the first input whose previous output does not resolve
/// (meaningful only when some input fails to resolve).
pub open spec fn first_unresolvable(txs: Map<u64, Transaction>, inputs: Seq<TransactionInput>) -> int
    decreases inputs.len(),
{
    if inputs.len() == 0 {
        0
    } else if !out_point_resolvable(txs, inputs[0].previous_output) {
        0
    } else {
        1 + first_unresolvable(txs, inputs.drop_first())
    }
}

/// The error reported for a previous output that does not resolve: either
/// the transaction is unknown, or the output position is out of bounds.
pub open spec fn resolution_error(txs: Map<u64, Transaction>, out_point: OutPoint) -> FeeError {
    if !txs.contains_key(out_point.hash) {
        FeeError::UnknownPreviousTransaction
    } else {
        FeeError::OutputIndexOutOfBounds
    }
}

/// The fee of `tx` under the resolver view `txs`: input total minus output
/// total, clamped at zero rather than allowed to go negative.
pub open spec fn spec_transaction_fee(txs: Map<u64, Transaction>, tx: Transaction) -> int {
    let inputs_total = input_sum(txs, tx.inputs@);
    let outputs_total = output_sum(tx.outputs@);
    if inputs_total >= outputs_total {
        inputs_total - outputs_total
    } else {
        0
    }
}

/// The complete outcome of a fee computation: the fee where every input
/// resolves, and otherwise the error of the first input that does not.
pub open spec fn spec_transaction_fee_result(
    txs: Map<u64, Transaction>,
    tx: Transaction,
) -> Result<u64, FeeError> {
    if all_inputs_resolvable(txs, tx.inputs@) {
        Ok(spec_transaction_fee(txs, tx) as u64)
    } else {
        Err(
            resolution_error(
                txs,
                tx.inputs@[first_unresolvable(txs, tx.inputs@)].previous_output,
            ),
        )
    }
}

/// The fee rate of `tx`: its fee divided by its serialized byte size,
/// using floor division (meaningful only for a non-zero size).
pub open spec fn spec_transaction_fee_rate(
    txs: Map<u64, Transaction>,
    tx: Transaction,
    serialized_size: u64,
) -> int {
    spec_transaction_fee(txs, tx) / (serialized_size as int)
}

/// The complete outcome of a fee-rate computation: a size of zero is a
/// contract violation of its own, reported before resolution is attempted.
pub open spec fn spec_transaction_fee_rate_result(
    txs: Map<u64, Transaction>,
    tx: Transaction,
    serialized_size: u64,
) -> Result<u64, FeeError> {
    if serialized_size == 0 {
        Err(FeeError::ZeroSerializedSize)
    } else if all_inputs_resolvable(txs, tx.inputs@) {
        Ok(spec_transaction_fee_rate(txs, tx, serialized_size) as u64)
    } else {
        Err(
            resolution_error(
                txs,
                tx.inputs@[first_unresolvable(txs, tx.inputs@)].previous_output,
            ),
        )
    }
}

/// Every input contributes a non-negative value, so an input total is
/// non-negative.
pub proof fn lemma_input_sum_nonneg(txs: Map<u64, Transaction>, inputs: Seq<TransactionInput>)
    ensures
        input_sum(txs, inputs) >= 0,
{
    let value = input_value_fn(txs);
    assert forall|i: int| 0 <= i < inputs.len() implies #[trigger] value(inputs[i]) >= 0 by {
        assert(value(inputs[i]) == out_point_value(txs, inputs[i].previous_output));
    }
    lemma_sum_by_nonneg(inputs, value);
}

/// Every output carries a non-negative value, so an output total is
/// non-negative.
pub proof fn lemma_output_sum_nonneg(outputs: Seq<TransactionOutput>)
    ensures
        output_sum(outputs) >= 0,
{
    let value = output_value_fn();
    assert forall|i: int| 0 <= i < outputs.len() implies #[trigger] value(outputs[i]) >= 0 by {
        assert(value(outputs[i]) == outputs[i].value as int);
    }
    lemma_sum_by_nonneg(outputs, value);
}

/// When every input before position `i` resolves and the input at `i` does
/// not, position `i` is the first that fails to resolve.
proof fn lemma_first_unresolvable_at(
    txs: Map<u64, Transaction>,
    inputs: Seq<TransactionInput>,
    i: int,
)
    requires
        0 <= i < inputs.len(),
        forall|j: int|
            0 <= j < i ==> out_point_resolvable(txs, #[trigger] inputs[j].previous_output),
        !out_point_resolvable(txs, inputs[i].previous_output),
    ensures
        first_unresolvable(txs, inputs) == i,
    decreases i,
{
    if i > 0 {
        assert(out_point_resolvable(txs, inputs[0].previous_output));
        let tail = inputs.drop_first();
        assert forall|j: int|
            0 <= j < i - 1 implies out_point_resolvable(
            txs,
            #[trigger] tail[j].previous_output,
        ) by {
            assert(tail[j] == inputs[j + 1]);
        }
        assert(tail[i - 1] == inputs[i]);
        lemma_first_unresolvable_at(txs, tail, i - 1);
    }
}

/// Compute the fee of `transaction`: resolve each input's previous output
/// through `provider`, total the input and output values, and subtract with
/// saturation at zero.
///
/// The result is pinned to a function of the provider's view and the
/// transaction alone, so repeated invocation under an unchanged view yields
/// identical results.  Success is owed exactly when every input resolves;
/// otherwise the error names what the first failing input violated, so a
/// failed computation is never mistaken for a legitimate zero fee.
pub fn transaction_fee<P: TransactionProvider>(
    provider: &P,
    transaction: &Transaction,
) -> (result: Result<u64, FeeError>)
    requires
        input_sum(provider.transactions(), transaction.inputs@) <= u64::MAX,
        output_sum(transaction.outputs@) <= u64::MAX,
    ensures
        result == spec_transaction_fee_result(provider.transactions(), *transaction),
        result is Ok <==> all_inputs_resolvable(provider.transactions(), transaction.inputs@),
        result matches Ok(fee) ==> fee == spec_transaction_fee(
            provider.transactions(),
            *transaction,
        ),
{
    let ghost txs = provider.transactions();
    let ghost inputs = transaction.inputs@;
    let ghost input_value = input_value_fn(txs);

    let mut inputs_sum: u64 = 0;
    let mut i: usize = 0;
    proof {
        assert(inputs.skip(0) =~= inputs);
    }
    while i < transaction.inputs.len()
        invariant
            txs == provider.transactions(),
            inputs == transaction.inputs@,
            input_value == input_value_fn(txs),
            0 <= i <= inputs.len(),
            input_sum(txs, inputs) <= u64::MAX,
            forall|j: int|
                0 <= j < i ==> out_point_resolvable(txs, #[trigger] inputs[j].previous_output),
            inputs_sum + input_sum(txs, inputs.skip(i as int)) == input_sum(txs, inputs),
        decreases inputs.len() - i,
    {
        let input = &transaction.inputs[i];
        match provider.transaction(input.previous_output.hash) {
            None => {
                proof {
                    lemma_first_unresolvable_at(txs, inputs, i as int);
                }
                return Err(FeeError::UnknownPreviousTransaction);
            },
            Some(previous) => {
                let index = input.previous_output.index as usize;
                if index >= previous.outputs.len() {
                    proof {
                        lemma_first_unresolvable_at(txs, inputs, i as int);
                    }
                    return Err(FeeError::OutputIndexOutOfBounds);
                }
                let value = previous.outputs[index].value;
                proof {
                    lemma_sum_by_skip_step(inputs, input_value, i as int);
                    assert(input_value(inputs[i as int]) == value as int);
                    lemma_input_sum_nonneg(txs, inputs.skip(i as int + 1));
                }
                inputs_sum = inputs_sum + value;
                i = i + 1;
            },
        }
    }
    proof {
        assert(inputs.skip(inputs.len() as int) =~= Seq::<TransactionInput>::empty());
        assert(inputs_sum == input_sum(txs, inputs));
    }

    let ghost outputs = transaction.outputs@;
    let ghost output_value = output_value_fn();

    let mut outputs_sum: u64 = 0;
    let mut k: usize = 0;
    proof {
        assert(outputs.skip(0) =~= outputs);
    }
    while k < transaction.outputs.len()
        invariant
            outputs == transaction.outputs@,
            output_value == output_value_fn(),
            0 <= k <= outputs.len(),
            output_sum(outputs) <= u64::MAX,
            outputs_sum + output_sum(outputs.skip(k as int)) == output_sum(outputs),
        decreases outputs.len() - k,
    {
        let value = transaction.outputs[k].value;
        proof {
            lemma_sum_by_skip_step(outputs, output_value, k as int);
            assert(output_value(outputs[k as int]) == value as int);
            lemma_output_sum_nonneg(outputs.skip(k as int + 1));
        }
        outputs_sum = outputs_sum + value;
        k = k + 1;
    }
    proof {
        assert(outputs.skip(outputs.len() as int) =~= Seq::<TransactionOutput>::empty());
        assert(outputs_sum == output_sum(outputs));
    }

    let fee = if inputs_sum >= outputs_sum {
        inputs_sum - outputs_sum
    } else {
        0
    };
    Ok(fee)
}

/// Compute the fee rate of `transaction`: its fee divided by its serialized
/// byte size, using floor division.  The size comes from an external sizing
/// collaborator and is an opaque positive integer here; a size of zero is
/// reported as a contract violation, never given a defined value.
///
/// As with the fee, the result is a function of the provider's view, the
/// transaction and the size alone.
pub fn transaction_fee_rate<P: TransactionProvider>(
    provider: &P,
    transaction: &Transaction,
    serialized_size: u64,
) -> (result: Result<u64, FeeError>)
    requires
        input_sum(provider.transactions(), transaction.inputs@) <= u64::MAX,
        output_sum(transaction.outputs@) <= u64::MAX,
    ensures
        result == spec_transaction_fee_rate_result(
            provider.transactions(),
            *transaction,
            serialized_size,
        ),
        result matches Ok(rate) ==> rate == spec_transaction_fee_rate(
            provider.transactions(),
            *transaction,
            serialized_size,
        ),
        serialized_size > 0 && spec_transaction_fee(provider.transactions(), *transaction) == 0
            && all_inputs_resolvable(provider.transactions(), transaction.inputs@)
            ==> result == Ok::<u64, FeeError>(0),
{
    if serialized_size == 0 {
        return Err(FeeError::ZeroSerializedSize);
    }
    match transaction_fee(provider, transaction) {
        Ok(fee) => Ok(fee / serialized_size),
        Err(error) => Err(error),
    }
}

/// Where the resolved input total covers the output total, the fee is
/// exactly the input total minus the output total.
pub proof fn lemma_fee_is_exact_difference(txs: Map<u64, Transaction>, tx: Transaction)
    requires
        output_sum(tx.outputs@) <= input_sum(txs, tx.inputs@),
    ensures
        spec_transaction_fee(txs, tx) == input_sum(txs, tx.inputs@) - output_sum(tx.outputs@),
{
}

/// Where the output total exceeds the input total, the fee saturates at
/// zero: it is never negative and never wraps.
pub proof fn lemma_fee_saturates_at_zero(txs: Map<u64, Transaction>, tx: Transaction)
    requires
        output_sum(tx.outputs@) > input_sum(txs, tx.inputs@),
    ensures
        spec_transaction_fee(txs, tx) == 0,
{
}

/// A zero fee gives a zero fee rate, whatever the serialized size.
pub proof fn lemma_zero_fee_zero_rate(
    txs: Map<u64, Transaction>,
    tx: Transaction,
    serialized_size: u64,
)
    requires
        serialized_size > 0,
        spec_transaction_fee(txs, tx) == 0,
    ensures
        spec_transaction_fee_rate(txs, tx, serialized_size) == 0,
{
}

/// Fee and fee rate are order-independent: two transactions whose inputs
/// are the same collection in different orders, and likewise whose outputs
/// are, have the same fee and the same fee rate.
pub proof fn lemma_fee_order_independent(
    txs: Map<u64, Transaction>,
    a: Transaction,
    b: Transaction,
    serialized_size: u64,
)
    requires
        a.inputs@.to_multiset() == b.inputs@.to_multiset(),
        a.outputs@.to_multiset() == b.outputs@.to_multiset(),
    ensures
        spec_transaction_fee(txs, a) == spec_transaction_fee(txs, b),
        spec_transaction_fee_rate(txs, a, serialized_size) == spec_transaction_fee_rate(
            txs,
            b,
            serialized_size,
        ),
{
    lemma_sum_by_permutation(a.inputs@, b.inputs@, input_value_fn(txs));
    lemma_sum_by_permutation(a.outputs@, b.outputs@, output_value_fn());
}

} // verus!
