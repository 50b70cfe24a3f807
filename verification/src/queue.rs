//! The per-track waiting queue.
//!
//! Each track keeps a bounded list of `(referendum index, ayes)` pairs,
//! sorted ascending by ayes: the entry at the end has the most ayes and is
//! the next to be decided.  When the queue is full a newcomer is admitted
//! only if its ayes exceed the minimum, which is evicted.

use vstd::prelude::*;
use crate::types::{ReferendumIndex, Votes};

verus! {

/// One waiting entry: a referendum and the ayes it was last seen with.
pub type QueueEntry = (ReferendumIndex, Votes);

/// Ascending by ayes.
pub open spec fn queue_sorted(q: Seq<QueueEntry>) -> bool {
    forall|i: int, j: int| 0 <= i < j < q.len() ==> q[i].1 <= q[j].1
}

/// Position of the first entry for `index`, `-1` when there is none.
pub open spec fn spec_queue_pos(q: Seq<QueueEntry>, index: ReferendumIndex) -> int
    decreases q.len(),
{
    if q.len() == 0 {
        -1
    } else if q[0].0 == index {
        0
    } else {
        let r = spec_queue_pos(q.drop_first(), index);
        if r < 0 {
            -1
        } else {
            1 + r
        }
    }
}

/// Number of leading entries whose ayes fall strictly below `ayes`: in a
/// sorted queue, the position at which an entry with `ayes` belongs.
pub open spec fn spec_lower_bound(q: Seq<QueueEntry>, ayes: Votes) -> int
    decreases q.len(),
{
    if q.len() == 0 {
        0
    } else if q[0].1 < ayes {
        1 + spec_lower_bound(q.drop_first(), ayes)
    } else {
        0
    }
}

/// The queue after an insertion under the bound: a full queue evicts its
/// minimum, and refuses a newcomer that does not exceed it.
pub open spec fn spec_force_insert(q: Seq<QueueEntry>, item: QueueEntry, bound: int)
    -> Seq<QueueEntry> {
    let pos = spec_lower_bound(q, item.1);
    if q.len() < bound {
        q.insert(pos, item)
    } else if pos == 0 {
        q
    } else {
        q.drop_first().insert(pos - 1, item)
    }
}

/// The queue after entry `old_pos` is re-keyed to `ayes` and slid to its new
/// sorted position, computed (as `spec_lower_bound`) before the move.
pub open spec fn spec_requeue(q: Seq<QueueEntry>, old_pos: int, ayes: Votes)
    -> Seq<QueueEntry> {
    let new_pos = spec_lower_bound(q, ayes);
    let updated = q.update(old_pos, (q[old_pos].0, ayes));
    let tgt = if new_pos > old_pos { new_pos - 1 } else { new_pos };
    updated.remove(old_pos).insert(tgt, (q[old_pos].0, ayes))
}

/// Find the first entry for `index`.
pub fn queue_position(q: &Vec<QueueEntry>, index: ReferendumIndex) -> (r: Option<usize>)
    ensures
        r matches Option::Some(p) ==> p == spec_queue_pos(q@, index) && p < q@.len(),
        r is None ==> spec_queue_pos(q@, index) == -1,
{
    let mut i: usize = 0;
    proof {
        assert(q@.skip(0) =~= q@);
    }
    while i < q.len()
        invariant
            0 <= i <= q@.len(),
            spec_queue_pos(q@.skip(i as int), index) >= 0
                ==> spec_queue_pos(q@, index) == i + spec_queue_pos(q@.skip(i as int), index),
            spec_queue_pos(q@.skip(i as int), index) < 0
                ==> spec_queue_pos(q@, index) == -1,
        decreases q@.len() - i,
    {
        proof {
            assert(q@.skip(i as int).drop_first() =~= q@.skip(i + 1));
        }
        if q[i].0 == index {
            return Option::Some(i);
        }
        i = i + 1;
    }
    Option::None
}

/// Count the leading entries with ayes strictly below `ayes`.
pub fn lower_bound(q: &Vec<QueueEntry>, ayes: Votes) -> (r: usize)
    ensures
        r == spec_lower_bound(q@, ayes),
        r <= q@.len(),
{
    let mut i: usize = 0;
    proof {
        assert(q@.skip(0) =~= q@);
    }
    while i < q.len()
        invariant
            0 <= i <= q@.len(),
            spec_lower_bound(q@, ayes) == i + spec_lower_bound(q@.skip(i as int), ayes),
            forall|j: int| 0 <= j < i ==> q@[j].1 < ayes,
        decreases q@.len() - i,
    {
        proof {
            assert(q@.skip(i as int).drop_first() =~= q@.skip(i + 1));
        }
        if q[i].1 >= ayes {
            return i;
        }
        i = i + 1;
    }
    i
}

/// The lower bound never exceeds the queue's length.
pub proof fn lemma_lower_bound_le_len(q: Seq<QueueEntry>, ayes: Votes)
    ensures
        0 <= spec_lower_bound(q, ayes) <= q.len(),
    decreases q.len(),
{
    if q.len() > 0 && q[0].1 < ayes {
        lemma_lower_bound_le_len(q.drop_first(), ayes);
    }
}

/// Below the lower bound all ayes fall short; in a sorted queue, from it on
/// they do not.
pub proof fn lemma_lower_bound_split(q: Seq<QueueEntry>, ayes: Votes)
    requires
        queue_sorted(q),
    ensures
        forall|k: int| 0 <= k < spec_lower_bound(q, ayes) ==> (#[trigger] q[k]).1 < ayes,
        forall|k: int| spec_lower_bound(q, ayes) <= k < q.len()
            ==> (#[trigger] q[k]).1 >= ayes,
    decreases q.len(),
{
    lemma_lower_bound_le_len(q, ayes);
    if q.len() > 0 && q[0].1 < ayes {
        assert(queue_sorted(q.drop_first())) by {
            assert(forall|i: int, j: int| 0 <= i < j < q.drop_first().len()
                ==> q.drop_first()[i] == q[i + 1] && q.drop_first()[j] == q[j + 1]);
        }
        lemma_lower_bound_split(q.drop_first(), ayes);
        assert(forall|k: int| 1 <= k < spec_lower_bound(q, ayes)
            ==> q[k] == q.drop_first()[k - 1]);
        assert(forall|k: int| spec_lower_bound(q, ayes) <= k < q.len()
            ==> q[k] == q.drop_first()[k - 1]);
    }
}

/// Removing an entry keeps a queue sorted.
pub proof fn lemma_remove_sorted(q: Seq<QueueEntry>, i: int)
    requires
        queue_sorted(q),
        0 <= i < q.len(),
    ensures
        queue_sorted(q.remove(i)),
{
    assert forall|a: int, b: int| 0 <= a < b < q.remove(i).len()
        implies q.remove(i)[a].1 <= q.remove(i)[b].1 by {
        let qa = if a < i { a } else { a + 1 };
        let qb = if b < i { b } else { b + 1 };
        assert(q.remove(i)[a] == q[qa]);
        assert(q.remove(i)[b] == q[qb]);
    }
}

/// Inserting an entry between everything smaller and everything not smaller
/// keeps a queue sorted.
pub proof fn lemma_insert_sorted(q: Seq<QueueEntry>, i: int, e: QueueEntry)
    requires
        queue_sorted(q),
        0 <= i <= q.len(),
        forall|k: int| 0 <= k < i ==> (#[trigger] q[k]).1 <= e.1,
        forall|k: int| i <= k < q.len() ==> (#[trigger] q[k]).1 >= e.1,
    ensures
        queue_sorted(q.insert(i, e)),
{
    let r = q.insert(i, e);
    assert forall|a: int, b: int| 0 <= a < b < r.len() implies r[a].1 <= r[b].1 by {
        if a < i {
            assert(r[a] == q[a]);
        } else if a == i {
            assert(r[a] == e);
        } else {
            assert(r[a] == q[a - 1]);
        }
        if b < i {
            assert(r[b] == q[b]);
        } else if b == i {
            assert(r[b] == e);
        } else {
            assert(r[b] == q[b - 1]);
        }
    }
}

/// Law: admission keeps the queue sorted, under its bound, and never grows
/// a full queue.
pub proof fn lemma_force_insert_sorted(q: Seq<QueueEntry>, item: QueueEntry, bound: int)
    requires
        queue_sorted(q),
        q.len() <= bound,
        1 <= bound,
    ensures
        queue_sorted(spec_force_insert(q, item, bound)),
        spec_force_insert(q, item, bound).len() <= bound,
{
    let pos = spec_lower_bound(q, item.1);
    lemma_lower_bound_le_len(q, item.1);
    lemma_lower_bound_split(q, item.1);
    if q.len() < bound {
        lemma_insert_sorted(q, pos, item);
    } else if pos > 0 {
        let d = q.drop_first();
        assert(queue_sorted(d)) by {
            assert(forall|i: int, j: int| 0 <= i < j < d.len()
                ==> d[i] == q[i + 1] && d[j] == q[j + 1]);
        }
        assert(forall|k: int| 0 <= k < pos - 1 ==> (#[trigger] d[k]).1 < item.1) by {
            assert(forall|k: int| 0 <= k < pos - 1 ==> d[k] == q[k + 1]);
        }
        assert(forall|k: int| pos - 1 <= k < d.len() ==> (#[trigger] d[k]).1 >= item.1) by {
            assert(forall|k: int| pos - 1 <= k < d.len() ==> d[k] == q[k + 1]);
        }
        lemma_insert_sorted(d, pos - 1, item);
    }
}

/// Law: re-keying one entry and sliding it to its freshly computed position
/// keeps the queue sorted, and keeps its length.
pub proof fn lemma_requeue_sorted(q: Seq<QueueEntry>, old_pos: int, ayes: Votes)
    requires
        queue_sorted(q),
        0 <= old_pos < q.len(),
    ensures
        queue_sorted(spec_requeue(q, old_pos, ayes)),
        spec_requeue(q, old_pos, ayes).len() == q.len(),
{
    let new_pos = spec_lower_bound(q, ayes);
    let e = (q[old_pos].0, ayes);
    let updated = q.update(old_pos, e);
    let removed = updated.remove(old_pos);
    assert(removed =~= q.remove(old_pos));
    lemma_remove_sorted(q, old_pos);
    lemma_lower_bound_le_len(q, ayes);
    lemma_lower_bound_split(q, ayes);
    let r = q.remove(old_pos);
    let tgt = if new_pos > old_pos { new_pos - 1 } else { new_pos };
    assert(forall|k: int| 0 <= k < tgt ==> (#[trigger] r[k]).1 < ayes) by {
        assert(forall|k: int| 0 <= k < tgt
            ==> r[k] == (if k < old_pos { q[k] } else { q[k + 1] }));
    }
    assert(forall|k: int| tgt <= k < r.len() ==> (#[trigger] r[k]).1 >= ayes) by {
        assert(forall|k: int| tgt <= k < r.len()
            ==> r[k] == (if k < old_pos { q[k] } else { q[k + 1] }));
    }
    lemma_insert_sorted(r, tgt, e);
}

/// A found queue position is in range.
pub proof fn lemma_queue_pos_in_range(q: Seq<QueueEntry>, index: ReferendumIndex)
    ensures
        spec_queue_pos(q, index) >= 0 ==> {
            &&& spec_queue_pos(q, index) < q.len()
            &&& q[spec_queue_pos(q, index)].0 == index
        },
    decreases q.len(),
{
    if q.len() > 0 && q[0].0 != index {
        lemma_queue_pos_in_range(q.drop_first(), index);
    }
}

} // verus!
