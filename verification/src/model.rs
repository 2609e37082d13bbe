//! The mathematical model of an element store, and the laws that hold of it.
//!
//! A store is a sequence of slots and a stack of freed indices. Removing an
//! element only records its index as free: the slot keeps its contents and
//! can still be read until a later insertion takes the index back.

use vstd::prelude::*;

verus! {

/// A store as plain mathematics: the slots in index order, and the freed
/// indices with the most recently freed one last.
pub struct ArenaModel<V> {
    pub slots: Seq<V>,
    pub free: Seq<u32>,
}

/// The largest number of slots whose indices all fit in 32 bits.
pub open spec fn max_slots() -> int {
    0x1_0000_0000
}

impl<V> ArenaModel<V> {
    /// The store that holds nothing.
    pub open spec fn empty() -> Self {
        ArenaModel { slots: Seq::empty(), free: Seq::empty() }
    }

    /// Every slot index fits in 32 bits, every freed index names a slot, and
    /// no index is freed twice.
    pub open spec fn wf(self) -> bool {
        &&& self.slots.len() <= max_slots()
        &&& self.free.no_duplicates()
        &&& forall|j: int| 0 <= j < self.free.len() ==> (#[trigger] self.free[j]) < self.slots.len()
    }

    /// The index names a slot that is not on the free stack.
    pub open spec fn is_live(self, i: u32) -> bool {
        i < self.slots.len() && !self.free.contains(i)
    }

    /// The indices of the live elements.
    pub open spec fn live(self) -> Set<u32> {
        Set::new(|i: u32| self.is_live(i))
    }

    /// The number of live elements.
    pub open spec fn len(self) -> int {
        self.slots.len() - self.free.len()
    }

    /// What a read at `i` gives: the slot's contents whenever `i` names a
    /// slot, whether or not that slot has been freed.
    pub open spec fn get(self, i: u32) -> Option<V> {
        if i < self.slots.len() {
            Some(self.slots[i as int])
        } else {
            None
        }
    }

    /// An insertion has an index to hand out: a freed one, or a fresh one
    /// that still fits in 32 bits.
    pub open spec fn can_insert(self) -> bool {
        self.free.len() > 0 || self.slots.len() < max_slots()
    }

    /// The index that the next insertion hands out: the most recently freed
    /// one, or else the one after the last slot.
    pub open spec fn next_index(self) -> u32 {
        if self.free.len() > 0 {
            self.free.last()
        } else {
            self.slots.len() as u32
        }
    }

    /// The store after inserting `value`.
    pub open spec fn insert_new(self, value: V) -> Self {
        if self.free.len() > 0 {
            ArenaModel {
                slots: self.slots.update(self.free.last() as int, value),
                free: self.free.drop_last(),
            }
        } else {
            ArenaModel { slots: self.slots.push(value), free: self.free }
        }
    }

    /// The store after removing the element at `i`: only the free stack grows.
    pub open spec fn remove(self, i: u32) -> Self {
        ArenaModel { slots: self.slots, free: self.free.push(i) }
    }

    /// The store after overwriting the slot at `i`.
    pub open spec fn with_slot(self, i: u32, value: V) -> Self {
        ArenaModel { slots: self.slots.update(i as int, value), free: self.free }
    }

    /// The live indices among the first `n`, in ascending order.
    pub open spec fn live_below(self, n: nat) -> Seq<u32>
        decreases n,
    {
        if n == 0 {
            Seq::empty()
        } else {
            let rest = self.live_below((n - 1) as nat);
            if self.free.contains((n - 1) as u32) {
                rest
            } else {
                rest.push((n - 1) as u32)
            }
        }
    }

    /// All live indices, in ascending order.
    pub open spec fn live_ids(self) -> Seq<u32> {
        self.live_below(self.slots.len())
    }
}

/// A sequence of distinct indices below `n` has at most `n` entries.
pub proof fn lemma_distinct_bounded(s: Seq<u32>, n: nat)
    requires
        s.no_duplicates(),
        forall|j: int| 0 <= j < s.len() ==> (#[trigger] s[j]) < n,
    ensures
        s.len() <= n,
    decreases n,
{
    if n == 0 {
        if s.len() > 0 {
            assert(s[0] < n);
        }
    } else {
        let top = (n - 1) as u32;
        if s.contains(top) {
            let k = choose|k: int| 0 <= k < s.len() && s[k] == top;
            let t = s.remove(k);
            assert forall|j: int| 0 <= j < t.len() implies (#[trigger] t[j]) < (n - 1) as nat by {
                if j < k {
                    assert(t[j] == s[j]);
                    assert(s[j] < n);
                } else {
                    assert(t[j] == s[j + 1]);
                    assert(s[j + 1] < n);
                }
            }
            assert(t.no_duplicates());
            lemma_distinct_bounded(t, (n - 1) as nat);
        } else {
            assert forall|j: int| 0 <= j < s.len() implies (#[trigger] s[j]) < (n - 1) as nat by {
                assert(s[j] < n);
                assert(s.contains(s[j]));
            }
            lemma_distinct_bounded(s, (n - 1) as nat);
        }
    }
}

/// The live indices below `n` come in strictly ascending order, each names a
/// live slot below `n`, and none is left out.
pub proof fn lemma_live_below<V>(m: ArenaModel<V>, n: nat)
    requires
        n <= m.slots.len() <= max_slots(),
    ensures
        forall|a: int, b: int|
            0 <= a < b < m.live_below(n).len() ==> m.live_below(n)[a] < m.live_below(n)[b],
        forall|a: int|
            0 <= a < m.live_below(n).len() ==> (#[trigger] m.live_below(n)[a]) < n && m.is_live(
                m.live_below(n)[a],
            ),
        forall|i: u32| i < n && m.is_live(i) ==> m.live_below(n).contains(i),
    decreases n,
{
    if n > 0 {
        let rest = m.live_below((n - 1) as nat);
        let top = (n - 1) as u32;
        lemma_live_below(m, (n - 1) as nat);
        let all = m.live_below(n);
        assert forall|i: u32| i < n && m.is_live(i) implies all.contains(i) by {
            if i == top {
                assert(all == rest.push(top));
                assert(all[rest.len() as int] == top);
            } else {
                assert(rest.contains(i));
                let k = choose|k: int| 0 <= k < rest.len() && rest[k] == i;
                assert(all[k] == i);
            }
        }
    }
}

/// Inserting keeps a store well formed.
pub proof fn law_insert_keeps_wf<V>(m: ArenaModel<V>, value: V)
    requires
        m.wf(),
        m.can_insert(),
    ensures
        m.insert_new(value).wf(),
{
    if m.free.len() > 0 {
        let f = m.free.drop_last();
        assert forall|j: int| 0 <= j < f.len() implies (#[trigger] f[j]) < m.slots.len() by {
            assert(f[j] == m.free[j]);
        }
    }
}

/// Removing a live element keeps a store well formed.
pub proof fn law_remove_keeps_wf<V>(m: ArenaModel<V>, i: u32)
    requires
        m.wf(),
        m.is_live(i),
    ensures
        m.remove(i).wf(),
{
}

/// A well-formed store never has more freed indices than slots, so its
/// number of live elements is not negative.
pub proof fn law_len_nonnegative<V>(m: ArenaModel<V>)
    requires
        m.wf(),
    ensures
        0 <= m.len(),
{
    lemma_distinct_bounded(m.free, m.slots.len());
}

/// Round trip: right after an insertion, reading at the index it handed out
/// gives the inserted value, and that index is live.
pub proof fn law_insert_then_get<V>(m: ArenaModel<V>, value: V)
    requires
        m.wf(),
        m.can_insert(),
    ensures
        m.insert_new(value).get(m.next_index()) == Some(value),
        m.insert_new(value).is_live(m.next_index()),
        !m.is_live(m.next_index()),
{
    if m.free.len() > 0 {
        let top = m.free.last();
        let f = m.free.drop_last();
        assert(m.free[m.free.len() - 1] == top);
        if f.contains(top) {
            let k = choose|k: int| 0 <= k < f.len() && f[k] == top;
            assert(m.free[k] == top);
        }
    } else {
        assert(m.free =~= Seq::<u32>::empty());
    }
}

/// An insertion changes no other slot and no other index's liveness.
pub proof fn law_insert_frames_others<V>(m: ArenaModel<V>, value: V, i: u32)
    requires
        m.wf(),
        m.can_insert(),
        i != m.next_index(),
    ensures
        i < m.slots.len() ==> m.insert_new(value).get(i) == m.get(i),
        m.insert_new(value).is_live(i) == m.is_live(i),
{
    if m.free.len() > 0 {
        let top = m.free.last();
        let f = m.free.drop_last();
        if m.free.contains(i) {
            let k = choose|k: int| 0 <= k < m.free.len() && m.free[k] == i;
            assert(f[k] == i);
        }
        if f.contains(i) {
            let k = choose|k: int| 0 <= k < f.len() && f[k] == i;
            assert(m.free[k] == i);
        }
    }
}

/// Reuse is last in, first out: right after a removal, the next insertion
/// hands out the index that was removed.
pub proof fn law_reuse_last_removed<V>(m: ArenaModel<V>, i: u32)
    ensures
        m.remove(i).can_insert(),
        m.remove(i).next_index() == i,
{
}

/// Stale read: a removal leaves every slot as it was, so the removed index
/// still reads its old value until an insertion takes the slot back. The
/// index is no longer live all the same.
pub proof fn law_remove_keeps_contents<V>(m: ArenaModel<V>, i: u32, j: u32)
    ensures
        m.remove(i).get(j) == m.get(j),
        i < m.slots.len() ==> m.remove(i).get(i) is Some,
        !m.remove(i).is_live(i),
        j != i ==> m.remove(i).is_live(j) == m.is_live(j),
{
    let f = m.free.push(i);
    assert(f[m.free.len() as int] == i);
    if j != i {
        if m.free.contains(j) {
            let k = choose|k: int| 0 <= k < m.free.len() && m.free[k] == j;
            assert(f[k] == j);
        }
        if f.contains(j) {
            let k = choose|k: int| 0 <= k < f.len() && f[k] == j;
            assert(m.free[k] == j);
        }
    }
}

/// An insertion adds one live element, a removal takes one away, and the
/// empty store has none.
pub proof fn law_len_steps<V>(m: ArenaModel<V>, value: V, i: u32)
    requires
        m.wf(),
    ensures
        ArenaModel::<V>::empty().len() == 0,
        m.insert_new(value).len() == m.len() + 1,
        m.remove(i).len() == m.len() - 1,
{
    if m.free.len() > 0 {
        assert(m.free[m.free.len() - 1] < m.slots.len());
    }
}

/// Iteration is complete: the ascending sequence of live indices holds each
/// live index once and nothing else, and has as many entries as the store
/// has live elements.
pub proof fn law_live_ids_exact<V>(m: ArenaModel<V>)
    requires
        m.wf(),
    ensures
        forall|a: int, b: int|
            0 <= a < b < m.live_ids().len() ==> m.live_ids()[a] < m.live_ids()[b],
        m.live_ids().no_duplicates(),
        forall|i: u32| m.live_ids().contains(i) <==> m.is_live(i),
        m.live_ids().to_set() == m.live(),
        m.live_ids().len() == m.len(),
{
    lemma_live_below(m, m.slots.len());
    assert(m.live_ids().to_set() =~= m.live());
    lemma_live_below_len(m, m.slots.len());
    assert(free_below(m, m.slots.len()) =~= m.free.to_set()) by {
        assert forall|x: u32| m.free.to_set().contains(x) implies x < m.slots.len() by {
            let k = choose|k: int| 0 <= k < m.free.len() && m.free[k] == x;
            assert(m.free[k] < m.slots.len());
        }
    }
    m.free.unique_seq_to_set();
}

/// The freed indices below `n`.
spec fn free_below<V>(m: ArenaModel<V>, n: nat) -> Set<u32> {
    m.free.to_set().intersect(Set::new(|x: u32| x < n))
}

/// Each index below `n` is either live or freed, and not both.
proof fn lemma_live_below_len<V>(m: ArenaModel<V>, n: nat)
    requires
        n <= m.slots.len() <= max_slots(),
    ensures
        free_below(m, n).finite(),
        m.live_below(n).len() + free_below(m, n).len() == n,
    decreases n,
{
    if n == 0 {
        assert(free_below(m, n) =~= Set::<u32>::empty());
    } else {
        let top = (n - 1) as u32;
        let before = free_below(m, (n - 1) as nat);
        lemma_live_below_len(m, (n - 1) as nat);
        if m.free.contains(top) {
            assert(free_below(m, n) =~= before.insert(top));
        } else {
            assert(free_below(m, n) =~= before);
        }
    }
}

} // verus!
