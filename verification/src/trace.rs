//! Histories of a store: what holds after any valid run of insertions and
//! removals from the empty store.

use vstd::prelude::*;
use crate::model::{
    ArenaModel, law_insert_frames_others, law_insert_keeps_wf, law_insert_then_get,
    law_len_nonnegative, law_len_steps, law_live_ids_exact, law_remove_keeps_contents,
};

verus! {

/// One step of a history.
pub enum ArenaOp<V> {
    /// Insert a value.
    Insert(V),
    /// Remove the element at an index.
    Remove(u32),
}

/// The store after one step.
pub open spec fn step<V>(m: ArenaModel<V>, op: ArenaOp<V>) -> ArenaModel<V> {
    match op {
        ArenaOp::Insert(value) => m.insert_new(value),
        ArenaOp::Remove(i) => m.remove(i),
    }
}

/// The store after the whole history, run from the empty store.
pub open spec fn run<V>(ops: Seq<ArenaOp<V>>) -> ArenaModel<V>
    decreases ops.len(),
{
    if ops.len() == 0 {
        ArenaModel::empty()
    } else {
        step(run(ops.drop_last()), ops.last())
    }
}

/// Every insertion has an index to hand out, and every removal names an
/// element that is live when it is removed.
pub open spec fn valid<V>(ops: Seq<ArenaOp<V>>) -> bool
    decreases ops.len(),
{
    if ops.len() == 0 {
        true
    } else {
        let before = run(ops.drop_last());
        &&& valid(ops.drop_last())
        &&& match ops.last() {
            ArenaOp::Insert(_) => before.can_insert(),
            ArenaOp::Remove(i) => before.is_live(i),
        }
    }
}

/// The number of insertions in the history.
pub open spec fn insertions<V>(ops: Seq<ArenaOp<V>>) -> int
    decreases ops.len(),
{
    if ops.len() == 0 {
        0
    } else {
        insertions(ops.drop_last()) + if ops.last() is Insert { 1int } else { 0int }
    }
}

/// The number of removals in the history.
pub open spec fn removals<V>(ops: Seq<ArenaOp<V>>) -> int
    decreases ops.len(),
{
    if ops.len() == 0 {
        0
    } else {
        removals(ops.drop_last()) + if ops.last() is Remove { 1int } else { 0int }
    }
}

/// The indices that the history handed out and has not removed since.
pub open spec fn outstanding<V>(ops: Seq<ArenaOp<V>>) -> Set<u32>
    decreases ops.len(),
{
    if ops.len() == 0 {
        Set::empty()
    } else {
        let before = ops.drop_last();
        match ops.last() {
            ArenaOp::Insert(_) => outstanding(before).insert(run(before).next_index()),
            ArenaOp::Remove(i) => outstanding(before).remove(i),
        }
    }
}

/// A valid history leaves a well-formed store.
pub proof fn law_run_wf<V>(ops: Seq<ArenaOp<V>>)
    requires
        valid(ops),
    ensures
        run(ops).wf(),
    decreases ops.len(),
{
    if ops.len() > 0 {
        law_run_wf(ops.drop_last());
        match ops.last() {
            ArenaOp::Insert(value) => law_insert_keeps_wf(run(ops.drop_last()), value),
            ArenaOp::Remove(_) => {},
        }
    }
}

/// Length accounting: after a valid history the number of live elements is
/// the number of insertions less the number of removals.
pub proof fn law_length_accounting<V>(ops: Seq<ArenaOp<V>>)
    requires
        valid(ops),
    ensures
        run(ops).len() == insertions(ops) - removals(ops),
        removals(ops) <= insertions(ops),
    decreases ops.len(),
{
    if ops.len() > 0 {
        let before = run(ops.drop_last());
        law_length_accounting(ops.drop_last());
        law_run_wf(ops.drop_last());
        match ops.last() {
            ArenaOp::Insert(value) => law_len_steps(before, value, 0),
            ArenaOp::Remove(i) => {
                law_run_wf(ops);
                law_len_nonnegative(run(ops));
            },
        }
    } else {
        assert(run(ops).free.len() == 0);
    }
}

/// After a valid history the live indices are exactly those handed out and
/// not removed since.
pub proof fn law_live_is_outstanding<V>(ops: Seq<ArenaOp<V>>)
    requires
        valid(ops),
    ensures
        run(ops).live() == outstanding(ops),
    decreases ops.len(),
{
    if ops.len() == 0 {
        assert(run(ops).live() =~= outstanding(ops));
    } else {
        let before = run(ops.drop_last());
        law_live_is_outstanding(ops.drop_last());
        law_run_wf(ops.drop_last());
        match ops.last() {
            ArenaOp::Insert(value) => {
                law_insert_then_get(before, value);
                assert forall|i: u32| run(ops).is_live(i) == outstanding(ops).contains(i) by {
                    if i != before.next_index() {
                        law_insert_frames_others(before, value, i);
                    }
                    assert(before.live().contains(i) == before.is_live(i));
                }
            },
            ArenaOp::Remove(r) => {
                assert forall|i: u32| run(ops).is_live(i) == outstanding(ops).contains(i) by {
                    law_remove_keeps_contents(before, r, i);
                    assert(before.live().contains(i) == before.is_live(i));
                }
            },
        }
        assert(run(ops).live() =~= outstanding(ops));
    }
}

/// Iteration completeness: after a valid history the ascending sequence of
/// live indices holds each index that was handed out and not removed since,
/// once, and nothing else.
pub proof fn law_iteration_complete<V>(ops: Seq<ArenaOp<V>>)
    requires
        valid(ops),
    ensures
        run(ops).live_ids().no_duplicates(),
        run(ops).live_ids().to_set() == outstanding(ops),
        run(ops).live_ids().len() == insertions(ops) - removals(ops),
{
    law_run_wf(ops);
    law_live_ids_exact(run(ops));
    law_live_is_outstanding(ops);
    law_length_accounting(ops);
}

} // verus!
