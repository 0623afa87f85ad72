//! Transactions: what a manager finds, over any sequence of its operations.

use crate::clock;
use crate::sip::transaction::{self, TransactionState, TransactionView};
use std::time::Instant;
use vstd::prelude::*;

verus! {

/// The transaction with this branch, where there is one.
pub open spec fn found(
    transactions: Map<Seq<char>, TransactionView>,
    branch: Seq<char>,
) -> Option<TransactionView> {
    if transactions.dom().contains(branch) {
        Some(transactions[branch])
    } else {
        None
    }
}

/// An operation that changes what a manager holds.
pub enum Operation {
    /// `create_transaction`, with the reading of the clock that it took.
    Create { branch: Seq<char>, method: Seq<char>, call_id: Seq<char>, created_at: Instant },
    /// `update_state`.
    Update { branch: Seq<char>, state: TransactionState },
    /// `remove_transaction`.
    Remove { branch: Seq<char> },
    /// `cleanup_expired`, with the reading of the clock that it took.
    Cleanup { now: Instant },
}

/// What a manager holds after an operation.
pub open spec fn after(
    before: Map<Seq<char>, TransactionView>,
    operation: Operation,
) -> Map<Seq<char>, TransactionView> {
    match operation {
        Operation::Create { branch, method, call_id, created_at } => before.insert(
            branch,
            transaction::proceeding(branch, method, call_id, created_at),
        ),
        Operation::Update { branch, state } => if before.dom().contains(branch) {
            before.insert(branch, TransactionView { state, ..before[branch] })
        } else {
            before
        },
        Operation::Remove { branch } => before.remove(branch),
        Operation::Cleanup { now } => transaction::young(before, now),
    }
}

/// What a new manager holds after a sequence of operations.
pub open spec fn after_all(operations: Seq<Operation>) -> Map<Seq<char>, TransactionView>
    decreases operations.len(),
{
    if operations.len() == 0 {
        Map::empty()
    } else {
        after(after_all(operations.drop_last()), operations.last())
    }
}

/// Whether an operation creates the transaction with this branch.
pub open spec fn creates(operation: Operation, branch: Seq<char>) -> bool {
    operation matches Operation::Create { branch: created, .. } && created == branch
}

/// Whether an operation takes out a transaction: by its branch, or because it has lasted for more
/// than 32 whole seconds.
pub open spec fn ends(operation: Operation, begun: TransactionView) -> bool {
    match operation {
        Operation::Remove { branch } => branch == begun.branch,
        Operation::Cleanup { now } => transaction::age(begun, now) > 32,
        _ => false,
    }
}

/// The position of the last operation that creates the transaction with this branch; -1 where
/// there is none.
pub open spec fn last_creation(operations: Seq<Operation>, branch: Seq<char>) -> int
    decreases operations.len(),
{
    if operations.len() == 0 {
        -1
    } else if creates(operations.last(), branch) {
        operations.len() - 1
    } else {
        last_creation(operations.drop_last(), branch)
    }
}

/// The transaction that an operation creates.
pub open spec fn begun_by(operation: Operation) -> TransactionView {
    transaction::proceeding(
        operation->Create_branch,
        operation->method,
        operation->call_id,
        operation->created_at,
    )
}

/// The state that the operations behind position `at` leave the transaction with this branch in:
/// that of the last update, or that of a transaction that has just begun.
pub open spec fn state_since(
    operations: Seq<Operation>,
    at: int,
    branch: Seq<char>,
) -> TransactionState
    decreases operations.len(),
{
    if operations.len() == 0 || operations.len() <= at + 1 {
        TransactionState::Proceeding
    } else {
        match operations.last() {
            Operation::Update { branch: updated, state } if updated == branch => state,
            _ => state_since(operations.drop_last(), at, branch),
        }
    }
}

/// Over any sequence of operations on a new manager, a transaction is found if and only if it was
/// created and has since its last creation neither been removed nor been cleaned up. It then has
/// the branch by which it is found, method, Call-ID and time of that creation, and the state of
/// the last update since.
pub proof fn law_found_after_any_operations(operations: Seq<Operation>, branch: Seq<char>)
    ensures
        ({
            let at = last_creation(operations, branch);
            let result = found(after_all(operations), branch);
            &&& -1 <= at < operations.len()
            &&& at >= 0 ==> creates(operations[at], branch)
            &&& result is Some <==> at >= 0 && forall|j: int|
                at < j < operations.len() ==> !ends(#[trigger] operations[j], begun_by(operations[at]))
            &&& result matches Some(transaction) ==> transaction == (TransactionView {
                state: state_since(operations, at, branch),
                ..begun_by(operations[at])
            }) && transaction.branch == branch
        }),
    decreases operations.len(),
{
    if operations.len() > 0 {
        let earlier = operations.drop_last();
        let last = operations.last();
        law_found_after_any_operations(earlier, branch);
        let at = last_creation(operations, branch);
        if !creates(last, branch) && at >= 0 {
            assert(earlier[at] == operations[at]);
            let begun = begun_by(operations[at]);
            assert(operations[operations.len() - 1] == last);
            if forall|j: int|
                at < j < operations.len() ==> !ends(#[trigger] operations[j], begun) {
                assert forall|j: int| at < j < earlier.len() implies !ends(
                    #[trigger] earlier[j],
                    begun,
                ) by {
                    assert(earlier[j] == operations[j]);
                }
            }
            if forall|j: int| at < j < earlier.len() ==> !ends(#[trigger] earlier[j], begun) {
                if !ends(last, begun) {
                    assert forall|j: int| at < j < operations.len() implies !ends(
                        #[trigger] operations[j],
                        begun,
                    ) by {
                        if j < earlier.len() {
                            assert(earlier[j] == operations[j]);
                        }
                    }
                }
            }
        }
    }
}

/// A new manager finds nothing.
pub proof fn law_nothing_found_at_first(branch: Seq<char>)
    ensures
        found(after_all(Seq::empty()), branch) is None,
{
}

/// Every transaction that a manager holds has its key as its branch.
pub proof fn law_filed_under_its_branch(operations: Seq<Operation>)
    ensures
        forall|branch: Seq<char>| #[trigger]
            after_all(operations).dom().contains(branch) ==> after_all(operations)[branch].branch
                == branch,
{
    assert forall|branch: Seq<char>| #[trigger]
        after_all(operations).dom().contains(branch) implies after_all(operations)[branch].branch
        == branch by {
        law_found_after_any_operations(operations, branch);
    }
}

/// A cleanup takes out a transaction if and only if it has lasted for more than 32 whole seconds,
/// whatever its state, and leaves the others as they are.
pub proof fn law_cleanup_goes_by_age(
    before: Map<Seq<char>, TransactionView>,
    now: Instant,
    branch: Seq<char>,
)
    ensures
        found(transaction::young(before, now), branch) == (match found(before, branch) {
            Some(transaction) if transaction::age(transaction, now) <= 32 => Some(transaction),
            _ => None,
        }),
{
}

/// An operation on one branch leaves every other one as it is.
pub proof fn law_other_branches_are_untouched(
    before: Map<Seq<char>, TransactionView>,
    operation: Operation,
    other: Seq<char>,
)
    requires
        match operation {
            Operation::Create { branch, .. } => branch != other,
            Operation::Update { branch, .. } => branch != other,
            Operation::Remove { branch } => branch != other,
            Operation::Cleanup { .. } => false,
        },
    ensures
        found(after(before, operation), other) == found(before, other),
{
}

/// A transaction begins in the state of one that is under way, with the branch, the method, the
/// Call-ID and the time that it was given.
pub proof fn law_a_transaction_begins(
    branch: Seq<char>,
    method: Seq<char>,
    call_id: Seq<char>,
    created_at: Instant,
)
    ensures
        ({
            let begun = transaction::proceeding(branch, method, call_id, created_at);
            &&& begun.branch == branch
            &&& begun.method == method
            &&& begun.call_id == call_id
            &&& begun.created_at == created_at
            &&& begun.state == TransactionState::Proceeding
        }),
{
}

/// A cleanup keeps a transaction exactly where no more than 32 whole seconds have passed since it
/// was created.
pub proof fn law_kept_for_32_seconds(
    before: Map<Seq<char>, TransactionView>,
    now: Instant,
    branch: Seq<char>,
)
    ensures
        ({
            let kept = transaction::young(before, now);
            let passed = clock::whole_seconds(
                clock::time_between(before[branch].created_at, now),
            );
            &&& kept.dom().contains(branch) <==> before.dom().contains(branch) && passed <= 32
            &&& kept.dom().contains(branch) ==> kept[branch] == before[branch]
        }),
{
}

} // verus!
