//! SIP transactions: a plain record of those that are under way.

use crate::clock::{self, seconds_between};
use crate::table::Table;
use std::time::Instant;
use vstd::prelude::*;

verus! {

/// The state of a transaction.
#[derive(Debug, Clone, Copy, PartialEq, Eq, Structural)]
pub enum TransactionState {
    /// The request has come, the final response has not.
    Proceeding,
    /// The final response has come.
    Completed,
    /// It is over.
    Terminated,
}

/// A transaction.
#[derive(Debug)]
pub struct Transaction {
    /// The branch parameter of the Via header, which identifies the transaction.
    pub branch: String,
    /// The SIP method.
    pub method: String,
    /// The Call-ID.
    pub call_id: String,
    /// When it was created.
    pub created_at: Instant,
    /// Its state.
    pub state: TransactionState,
}

/// What [`Transaction`] holds.
pub struct TransactionView {
    pub branch: Seq<char>,
    pub method: Seq<char>,
    pub call_id: Seq<char>,
    pub created_at: Instant,
    pub state: TransactionState,
}

impl View for Transaction {
    type V = TransactionView;

    open spec fn view(&self) -> TransactionView {
        TransactionView {
            branch: self.branch@,
            method: self.method@,
            call_id: self.call_id@,
            created_at: self.created_at,
            state: self.state,
        }
    }
}

impl Clone for Transaction {
    fn clone(&self) -> (copy: Self)
        ensures
            copy@ == self@,
    {
        Transaction {
            branch: self.branch.clone(),
            method: self.method.clone(),
            call_id: self.call_id.clone(),
            created_at: self.created_at,
            state: self.state,
        }
    }
}

/// The age, in whole seconds, up to which a transaction is kept (Timer B).
pub const MAX_AGE_SECS: u64 = 32;

/// The transactions under way, by branch.
pub struct TransactionManager {
    transactions: Table<Transaction>,
}

impl View for TransactionManager {
    type V = Map<Seq<char>, TransactionView>;

    closed spec fn view(&self) -> Map<Seq<char>, TransactionView> {
        self.transactions@
    }
}

/// A transaction that has just begun.
pub open spec fn proceeding(
    branch: Seq<char>,
    method: Seq<char>,
    call_id: Seq<char>,
    created_at: Instant,
) -> TransactionView {
    TransactionView { branch, method, call_id, created_at, state: TransactionState::Proceeding }
}

/// The age of a transaction at a reading of the clock, in whole seconds.
pub open spec fn age(transaction: TransactionView, now: Instant) -> u64 {
    clock::whole_seconds(clock::time_between(transaction.created_at, now))
}

/// The transactions whose age at a reading of the clock is at most `MAX_AGE_SECS`.
pub open spec fn young(transactions: Map<Seq<char>, TransactionView>, now: Instant) -> Map<
    Seq<char>,
    TransactionView,
> {
    Map::new(
        |branch: Seq<char>|
            transactions.dom().contains(branch) && age(transactions[branch], now) <= MAX_AGE_SECS,
        |branch: Seq<char>| transactions[branch],
    )
}

impl TransactionManager {
    /// The table is well formed.
    pub closed spec fn wf(self) -> bool {
        self.transactions.wf()
    }

    /// A manager without transactions.
    pub fn new() -> (manager: Self)
        ensures
            manager.wf(),
            manager@ == Map::<Seq<char>, TransactionView>::empty(),
    {
        TransactionManager { transactions: Table::new() }
    }

    /// Creates a transaction that counts from `created_at`, in place of one with the same
    /// branch, and gives back its branch.
    pub fn create_transaction_at(
        &mut self,
        branch: String,
        method: String,
        call_id: String,
        created_at: Instant,
    ) -> (key: String)
        requires
            old(self).wf(),
        ensures
            final(self).wf(),
            key@ == branch@,
            final(self)@ == old(self)@.insert(
                branch@,
                proceeding(branch@, method@, call_id@, created_at),
            ),
    {
        let key = branch.clone();
        let transaction = Transaction {
            branch: branch.clone(),
            method,
            call_id,
            created_at,
            state: TransactionState::Proceeding,
        };
        self.transactions.insert(branch, transaction);
        key
    }

    /// Creates a transaction now, in place of one with the same branch, and gives back its
    /// branch.
    pub fn create_transaction(&mut self, branch: String, method: String, call_id: String) -> (key:
        String)
        requires
            old(self).wf(),
        ensures
            final(self).wf(),
            key@ == branch@,
            exists|created_at: Instant|
                final(self)@ == old(self)@.insert(
                    branch@,
                    #[trigger] proceeding(branch@, method@, call_id@, created_at),
                ),
    {
        let created_at = Instant::now();
        let key = self.create_transaction_at(branch, method, call_id, created_at);
        assert(final(self)@ == old(self)@.insert(
            branch@,
            proceeding(branch@, method@, call_id@, created_at),
        ));
        key
    }

    /// The transaction with this branch.
    pub fn find_transaction(&self, branch: &str) -> (found: Option<Transaction>)
        requires
            self.wf(),
        ensures
            found is Some == self@.dom().contains(branch@),
            found matches Some(transaction) ==> transaction@ == self@[branch@],
    {
        match self.transactions.get(branch) {
            Some(transaction) => Some(transaction.clone()),
            None => None,
        }
    }

    /// Gives the transaction with this branch a new state, where there is one.
    pub fn update_state(&mut self, branch: &str, new_state: TransactionState)
        requires
            old(self).wf(),
        ensures
            final(self).wf(),
            old(self)@.dom().contains(branch@) ==> final(self)@ == old(self)@.insert(
                branch@,
                TransactionView { state: new_state, ..old(self)@[branch@] },
            ),
            !old(self)@.dom().contains(branch@) ==> final(self)@ == old(self)@,
    {
        if let Some(transaction) = self.transactions.get_mut(branch) {
            transaction.state = new_state;
        }
    }

    /// Takes out the transaction with this branch.
    pub fn remove_transaction(&mut self, branch: &str)
        requires
            old(self).wf(),
        ensures
            final(self).wf(),
            final(self)@ == old(self)@.remove(branch@),
    {
        self.transactions.remove(branch);
    }

    /// Takes out the transactions that have lasted for more than `MAX_AGE_SECS` whole seconds at
    /// a reading of the clock.
    pub fn cleanup_expired_at(&mut self, now: &Instant)
        requires
            old(self).wf(),
        ensures
            final(self).wf(),
            final(self)@ == young(old(self)@, *now),
    {
        let ghost table = self.transactions;
        let n = self.transactions.len();
        let mut keep: Vec<bool> = Vec::new();
        for i in 0..n
            invariant
                self.transactions == table,
                table.wf(),
                n == table.key_list().len(),
                keep@.len() == i,
                forall|j: int|
                    0 <= j < i ==> keep@[j] == (age(table@[#[trigger] table.key_list()[j]], *now)
                        <= MAX_AGE_SECS),
        {
            let seconds = seconds_between(&self.transactions.value_at(i).created_at, now);
            keep.push(seconds <= MAX_AGE_SECS);
        }
        self.transactions.retain(&keep);
        proof {
            let kept = young(table@, *now);
            assert forall|k: Seq<char>| self@.dom().contains(k) == #[trigger] kept.dom().contains(
                k,
            ) by {
                table.lemma_keys(k);
                if table@.dom().contains(k) {
                    let i = table.key_list().index_of(k);
                    assert(table.key_list()[i] == k);
                    assert(self.transactions@.dom().contains(table.key_list()[i]) == keep@[i]);
                } else {
                    assert(!self.transactions@.dom().contains(k));
                }
            }
            assert forall|k: Seq<char>| #[trigger] self@.dom().contains(k) implies self@[k]
                == kept[k] by {
                assert(kept.dom().contains(k));
                assert(self.transactions@.dom().contains(k));
            }
            assert(self@ =~= kept);
        }
    }

    /// Takes out the transactions that have lasted for more than `MAX_AGE_SECS` whole seconds.
    pub fn cleanup_expired(&mut self)
        requires
            old(self).wf(),
        ensures
            final(self).wf(),
            exists|now: Instant| final(self)@ == #[trigger] young(old(self)@, now),
    {
        let now = Instant::now();
        self.cleanup_expired_at(&now);
    }
}

} // verus!
