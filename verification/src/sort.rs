//! The criteria by which sibling nodes are ordered, and their cycle.

use vstd::prelude::*;
use crate::node::Node;
use crate::node::key_le;
use crate::node::lemma_key_le_total;
use crate::node::lemma_key_le_transitive;

verus! {

/// Ordering criterion for the children of the current node, in the order in
/// which the criteria follow each other.
#[derive(Clone, Copy, Debug, PartialEq, Eq, Structural)]
pub enum KeySort {
    SubkeyCount,
    KeyName,
    LastWrite,
}

/// Number of ordering criteria.
pub open spec fn sort_mode_count() -> nat {
    3
}

impl KeySort {
    /// Position of the criterion in the cycle; also the table column that
    /// shows the field it orders by.
    pub open spec fn ordinal(self) -> int {
        match self {
            KeySort::SubkeyCount => 0,
            KeySort::KeyName => 1,
            KeySort::LastWrite => 2,
        }
    }

    /// The criterion that follows this one, the first following the last.
    pub open spec fn successor(self) -> KeySort {
        match self {
            KeySort::SubkeyCount => KeySort::KeyName,
            KeySort::KeyName => KeySort::LastWrite,
            KeySort::LastWrite => KeySort::SubkeyCount,
        }
    }

    /// The criterion reached after `steps` advances.
    pub open spec fn advanced(self, steps: nat) -> KeySort
        decreases steps,
    {
        if steps == 0 {
            self
        } else {
            self.successor().advanced((steps - 1) as nat)
        }
    }

    /// Advances to the next criterion of the cycle.
    pub fn next(self) -> (mode: KeySort)
        ensures
            mode == self.successor(),
            mode.ordinal() == (self.ordinal() + 1) % (sort_mode_count() as int),
    {
        match self {
            KeySort::SubkeyCount => KeySort::KeyName,
            KeySort::KeyName => KeySort::LastWrite,
            KeySort::LastWrite => KeySort::SubkeyCount,
        }
    }

    /// Index of the table column that shows the field ordered by.
    pub fn column(self) -> (index: usize)
        ensures
            index == self.ordinal(),
    {
        match self {
            KeySort::SubkeyCount => 0,
            KeySort::KeyName => 1,
            KeySort::LastWrite => 2,
        }
    }
}

impl Default for KeySort {
    fn default() -> (mode: KeySort)
        ensures
            mode == KeySort::SubkeyCount,
    {
        KeySort::SubkeyCount
    }
}

/// Advancing once for every criterion there is returns to the criterion one
/// started from, and so does any whole number of such rounds.
pub proof fn lemma_sort_cycle_returns(mode: KeySort, rounds: nat)
    ensures
        mode.advanced(sort_mode_count()) == mode,
        mode.advanced(rounds * sort_mode_count()) == mode,
    decreases rounds,
{
    reveal_with_fuel(KeySort::advanced, 4);
    assert(mode.advanced(3) == mode);
    if rounds > 0 {
        lemma_sort_cycle_returns(mode, (rounds - 1) as nat);
        lemma_advanced_add(mode, 3, ((rounds - 1) * 3) as nat);
        assert(3 + (rounds - 1) * 3 == rounds * 3);
    }
}

/// Advancing `a` times and then `b` times is advancing `a + b` times.
pub proof fn lemma_advanced_add(mode: KeySort, a: nat, b: nat)
    ensures
        mode.advanced(a + b) == mode.advanced(a).advanced(b),
    decreases a,
{
    if a > 0 {
        lemma_advanced_add(mode.successor(), (a - 1) as nat, b);
        assert((a - 1) as nat + b == (a + b - 1) as nat);
    }
}

/// `sorted` with `x` put behind every node that does not sort after it.
pub open spec fn inserted(sorted: Seq<Node>, x: Node, mode: KeySort) -> Seq<Node>
    decreases sorted.len(),
{
    if sorted.len() == 0 {
        seq![x]
    } else if key_le(sorted.last(), x, mode) {
        sorted.push(x)
    } else {
        inserted(sorted.drop_last(), x, mode).push(sorted.last())
    }
}

/// The nodes in ascending order under the criterion, nodes that tie in the
/// order in which they stand in `nodes`.
pub open spec fn stable_sorted(nodes: Seq<Node>, mode: KeySort) -> Seq<Node>
    decreases nodes.len(),
{
    if nodes.len() == 0 {
        nodes
    } else {
        inserted(stable_sorted(nodes.drop_last(), mode), nodes.last(), mode)
    }
}

/// No node stands before one that sorts strictly before it.
pub open spec fn ascending(nodes: Seq<Node>, mode: KeySort) -> bool {
    forall|i: int, j: int| 0 <= i < j < nodes.len() ==> key_le(#[trigger] nodes[i], #[trigger] nodes[j], mode)
}

/// Two nodes tie when neither sorts after the other.
pub open spec fn ties(a: Node, b: Node, mode: KeySort) -> bool {
    key_le(a, b, mode) && key_le(b, a, mode)
}

/// Where `x` goes behind the first `at` nodes: the nodes from `at` on sort
/// strictly after it and the one before `at` does not.
proof fn lemma_inserted_at(sorted: Seq<Node>, x: Node, mode: KeySort, at: int)
    requires
        0 <= at <= sorted.len(),
        forall|k: int| at <= k < sorted.len() ==> !key_le(#[trigger] sorted[k], x, mode),
        at > 0 ==> key_le(sorted[at - 1], x, mode),
    ensures
        inserted(sorted, x, mode) == sorted.insert(at, x),
    decreases sorted.len() - at,
{
    if sorted.len() == 0 {
        assert(sorted.insert(at, x) =~= seq![x]);
    } else if at == sorted.len() {
        assert(sorted.insert(at, x) =~= sorted.push(x));
    } else {
        let front = sorted.drop_last();
        assert(!key_le(sorted[sorted.len() - 1], x, mode));
        assert forall|k: int| at <= k < front.len() implies !key_le(#[trigger] front[k], x, mode) by {
            assert(front[k] == sorted[k]);
        }
        lemma_inserted_at(front, x, mode, at);
        assert(front.insert(at, x).push(sorted.last()) =~= sorted.insert(at, x));
    }
}

/// Putting a node into an ascending sequence keeps it ascending and adds
/// that node and nothing else.
proof fn lemma_inserted_ascending(sorted: Seq<Node>, x: Node, mode: KeySort)
    requires
        ascending(sorted, mode),
    ensures
        ascending(inserted(sorted, x, mode), mode),
        inserted(sorted, x, mode).len() == sorted.len() + 1,
        inserted(sorted, x, mode).to_multiset() == sorted.to_multiset().insert(x),
    decreases sorted.len(),
{
    broadcast use vstd::seq_lib::group_to_multiset_ensures;

    if sorted.len() == 0 {
        assert(seq![x] =~= Seq::<Node>::empty().push(x));
        assert(sorted =~= Seq::<Node>::empty());
    } else if key_le(sorted.last(), x, mode) {
        let r = sorted.push(x);
        assert forall|i: int, j: int| 0 <= i < j < r.len() implies key_le(#[trigger] r[i], #[trigger] r[j], mode) by {
            if j == sorted.len() {
                if i < sorted.len() - 1 {
                    assert(key_le(sorted[i], sorted[sorted.len() - 1], mode));
                    lemma_key_le_transitive(sorted[i], sorted.last(), x, mode);
                }
            } else {
                assert(key_le(sorted[i], sorted[j], mode));
            }
        }
    } else {
        let front = sorted.drop_last();
        let last = sorted.last();
        assert forall|i: int, j: int| 0 <= i < j < front.len() implies key_le(#[trigger] front[i], #[trigger] front[j], mode) by {
            assert(key_le(sorted[i], sorted[j], mode));
        }
        lemma_inserted_ascending(front, x, mode);
        let inner = inserted(front, x, mode);
        let r = inner.push(last);
        lemma_key_le_total(last, x, mode);
        assert forall|i: int, j: int| 0 <= i < j < r.len() implies key_le(#[trigger] r[i], #[trigger] r[j], mode) by {
            if j == inner.len() {
                // every node of `inner` is `x` or a node of `front`
                assert(inner.to_multiset().count(inner[i]) > 0);
                if inner[i] == x {
                } else {
                    assert(front.to_multiset().count(inner[i]) > 0);
                    let k = choose|k: int| 0 <= k < front.len() && front[k] == inner[i];
                    assert(key_le(sorted[k], sorted[sorted.len() - 1], mode));
                }
            } else {
                assert(key_le(inner[i], inner[j], mode));
            }
        }
        assert(sorted =~= front.push(last));
        assert(sorted.to_multiset() =~= front.to_multiset().insert(last));
        assert(r.to_multiset() =~= sorted.to_multiset().insert(x));
    }
}

/// The sorted nodes stand in ascending order and are the same nodes, each
/// as often as before: only the order differs.
pub proof fn lemma_stable_sorted_ascending(nodes: Seq<Node>, mode: KeySort)
    ensures
        ascending(stable_sorted(nodes, mode), mode),
        stable_sorted(nodes, mode).len() == nodes.len(),
        stable_sorted(nodes, mode).to_multiset() == nodes.to_multiset(),
    decreases nodes.len(),
{
    broadcast use vstd::seq_lib::group_to_multiset_ensures;

    if nodes.len() > 0 {
        let front = nodes.drop_last();
        lemma_stable_sorted_ascending(front, mode);
        lemma_inserted_ascending(stable_sorted(front, mode), nodes.last(), mode);
        assert(nodes =~= front.push(nodes.last()));
        assert(nodes.to_multiset() =~= front.to_multiset().insert(nodes.last()));
    }
}

/// The nodes that tie with `z`, in the order in which they stand.
pub open spec fn tying(nodes: Seq<Node>, z: Node, mode: KeySort) -> Seq<Node> {
    nodes.filter(|n: Node| ties(n, z, mode))
}

/// Putting a node in changes the nodes that tie with `z` only by that
/// node, which comes last among them if it ties.
proof fn lemma_inserted_tying(sorted: Seq<Node>, x: Node, z: Node, mode: KeySort)
    ensures
        tying(inserted(sorted, x, mode), z, mode) == (if ties(x, z, mode) {
            tying(sorted, z, mode).push(x)
        } else {
            tying(sorted, z, mode)
        }),
    decreases sorted.len(),
{
    reveal(Seq::filter);
    if sorted.len() == 0 {
        assert(seq![x].drop_last() =~= sorted);
        assert(tying(sorted, z, mode) =~= sorted);
    } else if key_le(sorted.last(), x, mode) {
        assert(sorted.push(x).drop_last() =~= sorted);
    } else {
        let front = sorted.drop_last();
        let last = sorted.last();
        let inner = inserted(front, x, mode);
        lemma_inserted_tying(front, x, z, mode);
        assert(inner.push(last).drop_last() =~= inner);
        if ties(x, z, mode) && ties(last, z, mode) {
            lemma_key_le_transitive(last, z, x, mode);
        }
    }
}

/// The sort is stable: the nodes that tie with any given node stand in
/// the sorted sequence in the order in which they stood before.
pub proof fn lemma_stable_sorted_keeps_ties(nodes: Seq<Node>, z: Node, mode: KeySort)
    ensures
        tying(stable_sorted(nodes, mode), z, mode) == tying(nodes, z, mode),
    decreases nodes.len(),
{
    reveal(Seq::filter);
    if nodes.len() > 0 {
        lemma_stable_sorted_keeps_ties(nodes.drop_last(), z, mode);
        lemma_inserted_tying(stable_sorted(nodes.drop_last(), mode), nodes.last(), z, mode);
    }
}

/// Sorts the nodes in place into ascending order under the criterion.
/// The sort is stable: nodes that tie keep their order.
pub fn sort_nodes(nodes: &mut Vec<Node>, mode: KeySort)
    ensures
        final(nodes)@ == stable_sorted(old(nodes)@, mode),
{
    let ghost orig = nodes@;
    let n = nodes.len();
    let mut i: usize = 0;
    proof {
        assert(orig.take(0) =~= Seq::<Node>::empty());
        assert(nodes@.skip(0) =~= orig.skip(0));
    }
    while i < n
        invariant
            nodes@.len() == n,
            orig.len() == n,
            i <= n,
            nodes@.take(i as int) == stable_sorted(orig.take(i as int), mode),
            nodes@.skip(i as int) == orig.skip(i as int),
        decreases n - i,
    {
        let mut j: usize = i;
        while j > 0 && !nodes[j - 1].sorts_le(&nodes[i], mode)
            invariant
                j <= i,
                i < nodes@.len(),
                forall|k: int| j <= k < i ==> !key_le(#[trigger] nodes@[k], nodes@[i as int], mode),
            decreases j,
        {
            j -= 1;
        }
        let ghost before = nodes@;
        let x = nodes.remove(i);
        nodes.insert(j, x);
        proof {
            let prefix = before.take(i as int);
            assert(x == before[i as int]);
            assert(before[i as int] == before.skip(i as int)[0]);
            assert(orig[i as int] == orig.skip(i as int)[0]);
            assert forall|k: int| j <= k < prefix.len() implies !key_le(#[trigger] prefix[k], x, mode) by {
                assert(prefix[k] == before[k]);
            }
            if j > 0 {
                assert(prefix[j - 1] == before[j - 1]);
            }
            lemma_inserted_at(prefix, x, mode, j as int);
            assert(nodes@.take(i + 1) =~= prefix.insert(j as int, x));
            assert(orig.take(i + 1).drop_last() =~= orig.take(i as int));
            assert(orig.take(i + 1).last() == orig[i as int]);
            let tail = nodes@.skip(i + 1);
            let orig_tail = orig.skip(i + 1);
            assert forall|k: int| 0 <= k < tail.len() implies #[trigger] tail[k] == orig_tail[k] by {
                assert(tail[k] == before[i + 1 + k]);
                assert(before.skip(i as int)[k + 1] == orig.skip(i as int)[k + 1]);
            }
            assert(tail =~= orig_tail);
        }
        i += 1;
    }
    proof {
        assert(nodes@.take(n as int) =~= nodes@);
        assert(orig.take(n as int) =~= orig);
    }
}

} // verus!
