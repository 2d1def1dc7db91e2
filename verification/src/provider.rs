//! The lookup boundary the fee computation depends on: resolving a
//! previous-output reference to the transaction that carries the output.

use std::collections::HashMap;

use vstd::prelude::*;

use crate::transaction::Transaction;

verus! {

/// A source of previous transactions.  Abstractly it is a map from
/// transaction identifier to transaction; `transaction` answers exactly
/// according to that map, so every implementation presents a fixed view to
/// one fee computation.
pub trait TransactionProvider {
    /// The transactions this provider knows, as a map from identifier to
    /// transaction.
    spec fn transactions(&self) -> Map<u64, Transaction>;

    /// Look up the transaction with identifier `hash`, or report that no
    /// such transaction is known.
    fn transaction(&self, hash: u64) -> (result: Option<&Transaction>)
        ensures
            match result {
                Some(tx) => self.transactions().contains_key(hash) && *tx
                    == self.transactions()[hash],
                None => !self.transactions().contains_key(hash),
            },
    ;
}

/// An in-memory transaction store: the simplest provider, suitable both as
/// a test double and as a cache in front of a persistent index.
pub struct MemoryTransactionProvider {
    transactions_by_hash: HashMap<u64, Transaction>,
}

impl MemoryTransactionProvider {
    /// An empty store: no transaction is known.
    pub fn new() -> (provider: MemoryTransactionProvider)
        ensures
            provider.transactions() == Map::<u64, Transaction>::empty(),
    {
        MemoryTransactionProvider { transactions_by_hash: HashMap::new() }
    }

    /// Record `transaction` under the identifier `hash`, replacing any
    /// transaction previously recorded under it.
    pub fn insert(&mut self, hash: u64, transaction: Transaction)
        ensures
            final(self).transactions() == old(self).transactions().insert(hash, transaction),
    {
        self.transactions_by_hash.insert(hash, transaction);
    }
}

impl TransactionProvider for MemoryTransactionProvider {
    closed spec fn transactions(&self) -> Map<u64, Transaction> {
        self.transactions_by_hash@
    }

    fn transaction(&self, hash: u64) -> (result: Option<&Transaction>) {
        self.transactions_by_hash.get(&hash)
    }
}

} // verus!
