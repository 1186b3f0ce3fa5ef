//! Histories: what many callers do to one cache, in the order in which the
//! cache's lock let them in.
//!
//! Every operation on the cache runs alone, so whatever the callers do at the
//! same time amounts to some sequence of operations. The laws here say what
//! does not depend on which sequence it was: what becomes of a key is decided
//! by the operations on that key and by the sweeps, in their order, and by
//! nothing else.

use crate::cache::{after_get, after_insert, after_sweep, Entry, Table};
use vstd::prelude::*;

verus! {

/// One operation on the cache, with the tick at which it ran.
pub enum Op {
    /// A value was stored under a key.
    Insert { key: Seq<char>, value: Seq<char>, now: int },
    /// A key was read.
    Get { key: Seq<char>, now: int },
    /// The janitor swept.
    Sweep { now: int },
}

/// The table after one operation.
pub open spec fn apply(table: Table, op: Op, ttl: int) -> Table {
    match op {
        Op::Insert { key, value, now } => after_insert(table, key, value, now, ttl),
        Op::Get { key, now } => after_get(table, key, now, ttl),
        Op::Sweep { now } => after_sweep(table, now),
    }
}

/// The table after a sequence of operations, first to last.
pub open spec fn run(table: Table, ops: Seq<Op>, ttl: int) -> Table
    decreases ops.len(),
{
    if ops.len() == 0 {
        table
    } else {
        apply(run(table, ops.drop_last(), ttl), ops.last(), ttl)
    }
}

/// Whether an operation can change what the table holds for `key`: an insert
/// or a read of that key, or any sweep.
pub open spec fn concerns(op: Op, key: Seq<char>) -> bool {
    match op {
        Op::Insert { key: stored, .. } => stored == key,
        Op::Get { key: read, .. } => read == key,
        Op::Sweep { .. } => true,
    }
}

/// The operations of a sequence that concern `key`, in their order.
pub open spec fn only(ops: Seq<Op>, key: Seq<char>) -> Seq<Op>
    decreases ops.len(),
{
    if ops.len() == 0 {
        Seq::empty()
    } else if concerns(ops.last(), key) {
        only(ops.drop_last(), key).push(ops.last())
    } else {
        only(ops.drop_last(), key)
    }
}

/// What a table holds for a key: its entry, or nothing.
pub open spec fn entry_of(table: Table, key: Seq<char>) -> Option<Entry> {
    if table.contains_key(key) {
        Some(table[key])
    } else {
        None
    }
}

/// One operation decides what a key holds afterwards from what that key held
/// before, and leaves the key alone when it does not concern it.
pub proof fn lemma_apply_is_local(first: Table, second: Table, op: Op, key: Seq<char>, ttl: int)
    requires
        entry_of(first, key) == entry_of(second, key),
    ensures
        entry_of(apply(first, op, ttl), key) == entry_of(apply(second, op, ttl), key),
        !concerns(op, key) ==> entry_of(apply(first, op, ttl), key) == entry_of(first, key),
{
}

/// A sequence that ends with `op` runs as the sequence before it, and then `op`.
pub proof fn lemma_run_push(table: Table, ops: Seq<Op>, op: Op, ttl: int)
    ensures
        run(table, ops.push(op), ttl) == apply(run(table, ops, ttl), op, ttl),
{
    assert(ops.push(op).drop_last() =~= ops);
}

/// No lost update and no entry touched by a stranger: what a key holds after
/// a history is what it would hold had only the operations that concern it
/// been run.
pub proof fn lemma_key_sees_only_its_own_history(table: Table, ops: Seq<Op>, key: Seq<char>, ttl: int)
    ensures
        entry_of(run(table, ops, ttl), key) == entry_of(run(table, only(ops, key), ttl), key),
    decreases ops.len(),
{
    if ops.len() > 0 {
        let earlier = ops.drop_last();
        let op = ops.last();
        lemma_key_sees_only_its_own_history(table, earlier, key, ttl);
        lemma_apply_is_local(run(table, earlier, ttl), run(table, only(earlier, key), ttl), op, key, ttl);
        if concerns(op, key) {
            lemma_run_push(table, only(earlier, key), op, ttl);
        }
    }
}

/// Callers on different keys cannot disturb one another: two histories in
/// which every key meets the same operations in the same order end in the
/// same table, however the operations on different keys are interleaved.
pub proof fn lemma_interleaving_does_not_matter(table: Table, first: Seq<Op>, second: Seq<Op>, ttl: int)
    requires
        forall|key: Seq<char>| only(first, key) == only(second, key),
    ensures
        run(table, first, ttl) == run(table, second, ttl),
{
    let left = run(table, first, ttl);
    let right = run(table, second, ttl);
    assert forall|key: Seq<char>| entry_of(left, key) == entry_of(right, key) by {
        lemma_key_sees_only_its_own_history(table, first, key, ttl);
        lemma_key_sees_only_its_own_history(table, second, key, ttl);
        assert(only(first, key) == only(second, key));
    }
    assert forall|key: Seq<char>| left.contains_key(key) == right.contains_key(key) by {
        assert(entry_of(left, key) == entry_of(right, key));
    }
    assert forall|key: Seq<char>| left.contains_key(key) implies left[key] == right[key] by {
        assert(entry_of(left, key) == entry_of(right, key));
    }
    assert(left =~= right);
}

/// A history in which nothing concerns `key` leaves the key as it was.
pub proof fn lemma_untouched_key_is_unchanged(table: Table, ops: Seq<Op>, key: Seq<char>, ttl: int)
    requires
        forall|i: int| 0 <= i < ops.len() ==> !concerns(#[trigger] ops[i], key),
    ensures
        entry_of(run(table, ops, ttl), key) == entry_of(table, key),
    decreases ops.len(),
{
    if ops.len() > 0 {
        let earlier = ops.drop_last();
        assert forall|i: int| 0 <= i < earlier.len() implies !concerns(#[trigger] earlier[i], key) by {
            assert(earlier[i] == ops[i]);
        }
        lemma_untouched_key_is_unchanged(table, earlier, key, ttl);
        assert(!concerns(ops[ops.len() - 1], key));
        lemma_apply_is_local(run(table, earlier, ttl), run(table, earlier, ttl), ops.last(), key, ttl);
    }
}

/// No history makes a finite table infinite.
pub proof fn lemma_history_keeps_table_finite(table: Table, ops: Seq<Op>, ttl: int)
    requires
        table.dom().finite(),
    ensures
        run(table, ops, ttl).dom().finite(),
    decreases ops.len(),
{
    if ops.len() > 0 {
        let earlier = run(table, ops.drop_last(), ttl);
        lemma_history_keeps_table_finite(table, ops.drop_last(), ttl);
        match ops.last() {
            Op::Insert { key, value, now } => {},
            Op::Get { key, now } => {},
            Op::Sweep { now } => {
                assert(after_sweep(earlier, now).dom().subset_of(earlier.dom()));
                vstd::set_lib::lemma_len_subset(after_sweep(earlier, now).dom(), earlier.dom());
            },
        }
    }
}

} // verus!
