use tx_fee::fee::{transaction_fee, transaction_fee_rate, FeeError};
use tx_fee::provider::MemoryTransactionProvider;
use tx_fee::transaction::{OutPoint, Transaction, TransactionInput, TransactionOutput};

fn output(value: u64) -> TransactionOutput {
    TransactionOutput { value }
}

fn input(hash: u64, index: u32) -> TransactionInput {
    TransactionInput { previous_output: OutPoint { hash, index } }
}

#[test]
fn test_transaction_fee() {
    let tx0 = Transaction { inputs: vec![], outputs: vec![output(1_000_000)] };
    let tx0_hash: u64 = 1;
    let tx1 = Transaction { inputs: vec![], outputs: vec![output(2_000_000)] };
    let tx1_hash: u64 = 2;
    let tx2 = Transaction {
        inputs: vec![input(tx0_hash, 0), input(tx1_hash, 0)],
        outputs: vec![output(2_500_000)],
    };

    let mut db = MemoryTransactionProvider::new();
    db.insert(tx0_hash, tx0.clone());
    db.insert(tx1_hash, tx1.clone());

    assert_eq!(transaction_fee(&db, &tx0), Ok(0));
    assert_eq!(transaction_fee(&db, &tx1), Ok(0));
    assert_eq!(transaction_fee(&db, &tx2), Ok(500_000));

    assert_eq!(transaction_fee_rate(&db, &tx0, 60), Ok(0));
    assert_eq!(transaction_fee_rate(&db, &tx1, 60), Ok(0));
    assert_eq!(transaction_fee_rate(&db, &tx2, 101), Ok(4_950));
}

#[test]
fn test_fee_is_exact_difference() {
    // A root transaction carries outputs of 1,000,000 and 2,000,000; a
    // second root carries one output of 2,000,000.  A transaction spending
    // output 0 of each, emitting 2,500,000, pays exactly the difference.
    let root_a = Transaction { inputs: vec![], outputs: vec![output(1_000_000), output(2_000_000)] };
    let root_b = Transaction { inputs: vec![], outputs: vec![output(2_000_000)] };
    let spender = Transaction {
        inputs: vec![input(10, 0), input(11, 0)],
        outputs: vec![output(2_500_000)],
    };

    let mut db = MemoryTransactionProvider::new();
    db.insert(10, root_a);
    db.insert(11, root_b);

    assert_eq!(transaction_fee(&db, &spender), Ok(500_000));
    assert_eq!(transaction_fee_rate(&db, &spender, 101), Ok(4_950));
}

#[test]
fn test_fee_saturates_at_zero() {
    // The spender emits more value than it draws: the fee is reported as
    // zero, never negative and never wrapped.
    let root = Transaction { inputs: vec![], outputs: vec![output(1_000_000), output(2_000_000)] };
    let overspender = Transaction { inputs: vec![input(7, 0)], outputs: vec![output(2_500_000)] };

    let mut db = MemoryTransactionProvider::new();
    db.insert(7, root.clone());

    assert_eq!(transaction_fee(&db, &root), Ok(0));
    assert_eq!(transaction_fee(&db, &overspender), Ok(0));
    assert_eq!(transaction_fee_rate(&db, &overspender, 85), Ok(0));
}

#[test]
fn test_fee_rate_uses_floor_division() {
    let root = Transaction { inputs: vec![], outputs: vec![output(10)] };
    let spender = Transaction { inputs: vec![input(3, 0)], outputs: vec![output(3)] };

    let mut db = MemoryTransactionProvider::new();
    db.insert(3, root);

    // fee = 10 - 3 = 7; 7 / 3 rounds down to 2, 7 / 7 is exact, 7 / 8 is 0.
    assert_eq!(transaction_fee(&db, &spender), Ok(7));
    assert_eq!(transaction_fee_rate(&db, &spender, 3), Ok(2));
    assert_eq!(transaction_fee_rate(&db, &spender, 7), Ok(1));
    assert_eq!(transaction_fee_rate(&db, &spender, 8), Ok(0));
}

#[test]
fn test_zero_fee_gives_zero_rate_for_any_size() {
    let root = Transaction { inputs: vec![], outputs: vec![output(500)] };
    let spender = Transaction { inputs: vec![input(4, 0)], outputs: vec![output(500)] };

    let mut db = MemoryTransactionProvider::new();
    db.insert(4, root);

    assert_eq!(transaction_fee(&db, &spender), Ok(0));
    assert_eq!(transaction_fee_rate(&db, &spender, 1), Ok(0));
    assert_eq!(transaction_fee_rate(&db, &spender, 1_000), Ok(0));
    assert_eq!(transaction_fee_rate(&db, &spender, u64::MAX), Ok(0));
}

#[test]
fn test_fee_is_order_independent() {
    let root_a = Transaction { inputs: vec![], outputs: vec![output(1_000_000)] };
    let root_b = Transaction { inputs: vec![], outputs: vec![output(2_000_000)] };

    let forward = Transaction {
        inputs: vec![input(20, 0), input(21, 0)],
        outputs: vec![output(1_200_000), output(1_300_000)],
    };
    let reversed = Transaction {
        inputs: vec![input(21, 0), input(20, 0)],
        outputs: vec![output(1_300_000), output(1_200_000)],
    };

    let mut db = MemoryTransactionProvider::new();
    db.insert(20, root_a);
    db.insert(21, root_b);

    assert_eq!(transaction_fee(&db, &forward), Ok(500_000));
    assert_eq!(transaction_fee(&db, &forward), transaction_fee(&db, &reversed));
    assert_eq!(
        transaction_fee_rate(&db, &forward, 101),
        transaction_fee_rate(&db, &reversed, 101)
    );
}

#[test]
fn test_fee_is_deterministic() {
    let root = Transaction { inputs: vec![], outputs: vec![output(900)] };
    let spender = Transaction { inputs: vec![input(5, 0)], outputs: vec![output(250)] };

    let mut db = MemoryTransactionProvider::new();
    db.insert(5, root);

    let first = transaction_fee(&db, &spender);
    let second = transaction_fee(&db, &spender);
    assert_eq!(first, Ok(650));
    assert_eq!(first, second);

    let first_rate = transaction_fee_rate(&db, &spender, 9);
    let second_rate = transaction_fee_rate(&db, &spender, 9);
    assert_eq!(first_rate, Ok(72));
    assert_eq!(first_rate, second_rate);
}

#[test]
fn test_unknown_previous_transaction_is_reported() {
    let root = Transaction { inputs: vec![], outputs: vec![output(800)] };
    let spender = Transaction {
        inputs: vec![input(6, 0), input(99, 0)],
        outputs: vec![output(100)],
    };

    let mut db = MemoryTransactionProvider::new();
    db.insert(6, root);

    // No transaction is recorded under identifier 99: the computation
    // halts with the violation instead of returning any numeric fee.
    assert_eq!(
        transaction_fee(&db, &spender),
        Err(FeeError::UnknownPreviousTransaction)
    );
    assert_eq!(
        transaction_fee_rate(&db, &spender, 50),
        Err(FeeError::UnknownPreviousTransaction)
    );
}

#[test]
fn test_out_of_bounds_output_index_is_reported() {
    let root = Transaction { inputs: vec![], outputs: vec![output(800)] };
    let spender = Transaction { inputs: vec![input(6, 1)], outputs: vec![output(100)] };

    let mut db = MemoryTransactionProvider::new();
    db.insert(6, root);

    assert_eq!(
        transaction_fee(&db, &spender),
        Err(FeeError::OutputIndexOutOfBounds)
    );
    assert_eq!(
        transaction_fee_rate(&db, &spender, 50),
        Err(FeeError::OutputIndexOutOfBounds)
    );
}

#[test]
fn test_zero_serialized_size_is_reported() {
    let root = Transaction { inputs: vec![], outputs: vec![output(800)] };
    let spender = Transaction { inputs: vec![input(6, 0)], outputs: vec![output(100)] };

    let mut db = MemoryTransactionProvider::new();
    db.insert(6, root);

    assert_eq!(
        transaction_fee_rate(&db, &spender, 0),
        Err(FeeError::ZeroSerializedSize)
    );
}

#[test]
fn test_empty_transaction_has_zero_fee() {
    let empty = Transaction { inputs: vec![], outputs: vec![] };
    let db = MemoryTransactionProvider::new();

    assert_eq!(transaction_fee(&db, &empty), Ok(0));
    assert_eq!(transaction_fee_rate(&db, &empty, 10), Ok(0));
}
