//! What holds of navigation in every state, proved of the operations as
//! functions on `Cursor`.

use vstd::prelude::*;
use crate::cache::Entry;
use crate::cache::index_of_key;
use crate::cache::keys_distinct;
use crate::cache::lemma_index_of_key;
use crate::cache::lemma_index_of_key_at;
use crate::cache::lemma_stored_wf;
use crate::cache::lemma_touched_wf;
use crate::cache::lookup;
use crate::cache::memory_wf;
use crate::cache::remembered;
use crate::cache::stored;
use crate::cache::touched;
use crate::cursor::Cursor;
use crate::cursor::identities_distinct;
use crate::cursor::position_of;
use crate::cursor::saved_for;
use crate::node::Node;
use crate::selection::SelectionState;
use crate::selection::clamped;
use crate::selection::effective_index;
use crate::selection::fits;
use crate::selection::is_default;
use crate::selection::restored;
use crate::selection::settled_on;
use crate::sort::KeySort;
use crate::sort::lemma_stable_sorted_ascending;
use crate::sort::stable_sorted;

verus! {

/// Remembering a state keeps a memory within its bound, and a default
/// state is never written.
pub proof fn lemma_remembered(memory: Seq<Entry>, capacity: nat, key: usize, state: SelectionState)
    requires
        memory_wf(memory, capacity),
    ensures
        memory_wf(remembered(memory, capacity, key, state), capacity),
        is_default(state) ==> remembered(memory, capacity, key, state) == memory,
{
    lemma_stored_wf(memory, capacity, key, state);
}

/// What `position_of` finds: the first node with the identity, and
/// nothing exactly where no node has it.
pub proof fn lemma_position_of(nodes: Seq<Node>, identity: usize)
    requires
        nodes.len() <= usize::MAX,
    ensures
        match position_of(nodes, identity) {
            Some(i) => {
                &&& i < nodes.len()
                &&& nodes[i as int].identity == identity
                &&& forall|j: int| 0 <= j < i ==> (#[trigger] nodes[j]).identity != identity
            },
            None => forall|j: int| 0 <= j < nodes.len() ==> (#[trigger] nodes[j]).identity != identity,
        },
    decreases nodes.len(),
{
    if nodes.len() > 0 {
        let front = nodes.drop_last();
        lemma_position_of(front, identity);
        assert forall|j: int| 0 <= j < front.len() implies front[j] == nodes[j] by {}
        match position_of(front, identity) {
            Some(i) => {
                assert(front[i as int] == nodes[i as int]);
                assert forall|j: int| 0 <= j < i implies (#[trigger] nodes[j]).identity != identity by {
                    assert(front[j] == nodes[j]);
                }
            },
            None => {
                assert forall|j: int| 0 <= j < nodes.len() - 1 implies (#[trigger] nodes[j]).identity
                    != identity by {
                    assert(front[j] == nodes[j]);
                }
            },
        }
    }
}

/// Selecting a child leaves a well-formed state, whatever row is asked for.
pub proof fn lemma_with_child_wf(c: Cursor, memory: Seq<Entry>, index: Option<usize>)
    requires
        c.children.len() <= usize::MAX,
        memory_wf(c.key_memory, c.key_capacity),
        memory_wf(memory, c.value_capacity),
    ensures
        c.with_child(memory, index).wf(),
{
    match index {
        Some(i) => {
            if i < c.children.len() {
                lemma_touched_wf(memory, c.children[i as int].identity);
            }
        },
        None => {},
    }
}

/// Selecting a child keeps the state well-formed.
pub proof fn lemma_select_child_wf(c: Cursor, index: Option<usize>)
    requires
        c.wf(),
    ensures
        c.select_child(index).wf(),
        index matches Some(i) && i < c.children.len() ==> c.select_child(index).key_state.selected_index
            == index,
{
    let memory = saved_for(c.value_memory, c.value_capacity, c.selected_identity(), c.value_state);
    match c.selected_identity() {
        Some(identity) => {
            lemma_remembered(c.value_memory, c.value_capacity, identity, c.value_state);
        },
        None => {},
    }
    lemma_with_child_wf(c, memory, index);
}

/// Entering a node replaces the children by the node's own, in the active
/// order, selects one of them whenever there is one, and leaves a
/// well-formed state.
pub proof fn lemma_select_node_wf(c: Cursor, node: Node, children: Seq<Node>)
    requires
        c.wf(),
        children.len() <= usize::MAX,
    ensures
        c.select_node(node, children).wf(),
        c.select_node(node, children).current == node,
        c.select_node(node, children).children == stable_sorted(children, c.sort),
        c.select_node(node, children).sort == c.sort,
        settled_on(c.select_node(node, children).key_state, children.len()),
        is_default(c.key_state) ==> c.select_node(node, children).key_memory == touched(
            c.key_memory,
            node.identity,
        ),
{
    let left = c.left(c.selected_identity());
    lemma_remembered(c.key_memory, c.key_capacity, c.current.identity, c.key_state);
    lemma_remembered(c.value_memory, c.value_capacity, c.current.identity, c.value_state);
    let value_memory = remembered(c.value_memory, c.value_capacity, c.current.identity, c.value_state);
    match c.selected_identity() {
        Some(identity) => {
            lemma_remembered(value_memory, c.value_capacity, identity, c.value_state);
        },
        None => {},
    }
    lemma_touched_wf(left.key_memory, node.identity);
    lemma_stable_sorted_ascending(children, c.sort);
    let sorted = stable_sorted(children, c.sort);
    let key_state = restored(
        lookup(left.key_memory, node.identity),
        sorted.len(),
    );
    let base = Cursor {
        current: node,
        children: sorted,
        key_state,
        key_memory: touched(left.key_memory, node.identity),
        ..left
    };
    lemma_with_child_wf(base, left.value_memory, key_state.selected_index);
}

/// Ordering the children keeps the state well-formed and changes neither
/// the node entered nor what is remembered; the children are the same
/// nodes as before, in ascending order.
pub proof fn lemma_sort_by_wf(c: Cursor, mode: KeySort)
    requires
        c.wf(),
    ensures
        c.sort_by(mode).wf(),
        c.sort_by(mode).sort == mode,
        c.sort_by(mode).current == c.current,
        c.sort_by(mode).children == stable_sorted(c.children, mode),
        c.sort_by(mode).children.to_multiset() == c.children.to_multiset(),
        c.sort_by(mode).key_memory == c.key_memory,
        c.sort_by(mode).value_memory == c.value_memory,
{
    lemma_stable_sorted_ascending(c.children, mode);
    match c.selected_child() {
        Some(child) => {
            lemma_position_of(stable_sorted(c.children, mode), child.identity);
        },
        None => {},
    }
}

/// One move along either list.
pub enum Step {
    /// Move the child selection by so many rows.
    Child(int),
    /// Move the value selection by so many rows.
    Value(int),
}

/// The state after a sequence of moves.
pub open spec fn after_steps(c: Cursor, steps: Seq<Step>) -> Cursor
    decreases steps.len(),
{
    if steps.len() == 0 {
        c
    } else {
        let before = after_steps(c, steps.drop_last());
        match steps.last() {
            Step::Child(delta) => before.move_child_by(delta),
            Step::Value(delta) => before.move_value_by(delta),
        }
    }
}

/// After any sequence of moves along the two lists, each selection is
/// none or names a row of its list. The value selection is none only on an
/// empty list, and moves leave the children as they are.
pub proof fn lemma_moves_stay_in_range(c: Cursor, steps: Seq<Step>)
    requires
        c.wf(),
    ensures
        after_steps(c, steps).wf(),
        fits(after_steps(c, steps).key_state, after_steps(c, steps).children.len()),
        settled_on(after_steps(c, steps).value_state, after_steps(c, steps).values().len()),
        after_steps(c, steps).children == c.children,
    decreases steps.len(),
{
    if steps.len() > 0 {
        lemma_moves_stay_in_range(c, steps.drop_last());
        let before = after_steps(c, steps.drop_last());
        match steps.last() {
            Step::Child(delta) => {
                lemma_move_child_by(before, delta);
            },
            Step::Value(delta) => {
                lemma_move_value_by(before, delta);
            },
        }
    }
}

/// A move of the child selection ends on the row asked for, held within
/// the list, and keeps the state well-formed.
pub proof fn lemma_move_child_by(c: Cursor, delta: int)
    requires
        c.wf(),
    ensures
        c.move_child_by(delta).wf(),
        c.move_child_by(delta).children == c.children,
        c.children.len() > 0 ==> c.move_child_by(delta).key_state.selected_index == Some(
            clamped(
                effective_index(c.key_state),
                delta,
                c.children.len() as int,
            ) as usize,
        ),
        c.children.len() == 0 ==> c.move_child_by(delta) == c,
{
    if c.children.len() > 0 {
        let target = clamped(
            effective_index(c.key_state),
            delta,
            c.children.len() as int,
        ) as usize;
        lemma_select_child_wf(c, Some(target));
    }
}

/// A move of the value selection ends on the row asked for, held within
/// the list, and changes nothing else.
pub proof fn lemma_move_value_by(c: Cursor, delta: int)
    requires
        c.wf(),
    ensures
        c.move_value_by(delta).wf(),
        c.move_value_by(delta).children == c.children,
        c.move_value_by(delta).key_state == c.key_state,
        c.values().len() > 0 ==> c.move_value_by(delta).value_state.selected_index == Some(
            clamped(
                effective_index(c.value_state),
                delta,
                c.values().len() as int,
            ) as usize,
        ),
        c.values().len() == 0 ==> c.move_value_by(delta) == c,
{
}

/// Going up from the root, which has no parent, changes nothing.
pub proof fn lemma_leave_at_root(c: Cursor)
    ensures
        c.leave_to_parent(None) == c,
{
}

/// Entering a child where none is selected changes nothing.
pub proof fn lemma_enter_without_child(c: Cursor, children: Seq<Node>)
    requires
        c.selected_child() is None,
    ensures
        c.enter_child(children) == c,
{
}

/// Cycling through all the ordering criteria returns to the criterion one
/// started from. The children are then the same nodes as at the start,
/// each as often as before, and nothing that is remembered has changed.
pub proof fn lemma_cycle_sort_round(c: Cursor)
    ensures
        c.cycle_sort().cycle_sort().cycle_sort().sort == c.sort,
        c.cycle_sort().cycle_sort().cycle_sort().children.to_multiset() == c.children.to_multiset(),
        c.cycle_sort().cycle_sort().cycle_sort().children.len() == c.children.len(),
        c.cycle_sort().cycle_sort().cycle_sort().current == c.current,
        c.cycle_sort().cycle_sort().cycle_sort().key_memory == c.key_memory,
        c.cycle_sort().cycle_sort().cycle_sort().value_memory == c.value_memory,
{
    let one = c.cycle_sort();
    let two = one.cycle_sort();
    let three = two.cycle_sort();
    lemma_cycle_sort_once(c);
    lemma_cycle_sort_once(one);
    lemma_cycle_sort_once(two);
}

/// One advance of the ordering: the criterion is the next one and the
/// children are the same nodes in its order.
pub proof fn lemma_cycle_sort_once(c: Cursor)
    ensures
        c.cycle_sort().sort == c.sort.successor(),
        c.cycle_sort().children == stable_sorted(c.children, c.sort.successor()),
        c.cycle_sort().children.to_multiset() == c.children.to_multiset(),
        c.cycle_sort().children.len() == c.children.len(),
        c.cycle_sort().current == c.current,
        c.cycle_sort().key_memory == c.key_memory,
        c.cycle_sort().value_memory == c.value_memory,
{
    lemma_stable_sorted_ascending(c.children, c.sort.successor());
}

/// Where the children have distinct identities, ordering them leaves the
/// selection on the same child, at the row where that child now stands,
/// with its values and the value selection as they were.
pub proof fn lemma_sort_keeps_selected_child(c: Cursor, mode: KeySort)
    requires
        c.wf(),
        identities_distinct(c.children),
        c.selected_child() is Some,
    ensures
        c.sort_by(mode).selected_child() == c.selected_child(),
        c.sort_by(mode).values() == c.values(),
        c.sort_by(mode).value_state == c.value_state,
        c.sort_by(mode).key_state.scroll_offset == c.key_state.scroll_offset,
{
    broadcast use vstd::seq_lib::group_to_multiset_ensures;

    let child = c.selected_child()->0;
    let at = c.key_state.selected_index->0 as int;
    let sorted = stable_sorted(c.children, mode);
    lemma_stable_sorted_ascending(c.children, mode);
    lemma_position_of(sorted, child.identity);
    assert(c.children[at] == child);
    assert(c.children.contains(child));
    assert(sorted.to_multiset().count(child) > 0);
    assert(sorted.contains(child));
    let k = choose|k: int| 0 <= k < sorted.len() && sorted[k] == child;
    assert(sorted[k].identity == child.identity);
    let found = position_of(sorted, child.identity)->0 as int;
    let other = sorted[found];
    assert(sorted.contains(other));
    assert(c.children.to_multiset().count(other) > 0);
    assert(c.children.contains(other));
    let j = choose|j: int| 0 <= j < c.children.len() && c.children[j] == other;
    if j != at {
        if j < at {
            assert(c.children[j].identity != c.children[at].identity);
        } else {
            assert(c.children[at].identity != c.children[j].identity);
        }
    }
}

/// A memory whose entry at `at` has the key and whose keys are distinct
/// returns that entry's state for the key.
proof fn lemma_lookup_at(memory: Seq<Entry>, at: int, key: usize, state: SelectionState)
    requires
        keys_distinct(memory),
        0 <= at < memory.len(),
        memory[at] == (key, state),
    ensures
        lookup(memory, key) == Some(state),
        index_of_key(memory, key) == at,
{
    lemma_index_of_key_at(memory, at);
}

/// Entering the selected child and coming back restores a selection that
/// was not the default one: the same row is selected again, and the list
/// is scrolled as it was.
pub proof fn lemma_round_trip(c: Cursor, below: Seq<Node>, again: Seq<Node>)
    requires
        c.wf(),
        c.selected_child() is Some,
        !is_default(c.key_state),
        c.selected_child()->0.identity != c.current.identity,
        again.len() == c.children.len(),
    ensures
        c.enter_child(below).current == c.selected_child()->0,
        c.enter_child(below).leave_to_parent(Some((c.current, again))).current == c.current,
        c.enter_child(below).leave_to_parent(Some((c.current, again))).key_state == c.key_state,
{
    let child = c.selected_child()->0;
    let here = c.current.identity;
    let there = child.identity;
    let cap = c.key_capacity;
    let km1 = stored(c.key_memory, cap, here, c.key_state);
    lemma_stored_wf(c.key_memory, cap, here, c.key_state);
    let left = c.left(c.selected_identity());
    assert(left.key_memory == km1);
    let down = c.enter_child(below);
    assert(down == left.arrived(child, below));
    let km2 = touched(km1, there);
    assert(down.key_memory == km2);
    assert(down.current == child);
    lemma_touched_wf(km1, there);
    lemma_index_of_key(km1, there);
    let j = index_of_key(km1, there);
    // where the entry of the node left stands after the child was looked up
    let at2: int = if j < 0 { 0 } else { 1 };
    if j < 0 {
        assert(km2 == km1);
    } else {
        assert(j >= 1);
        assert(km2[1] == km1.remove(j)[0]);
        assert(km1.remove(j)[0] == km1[0]);
        assert(km2[0].0 == there);
    }
    assert(km2[at2] == (here, c.key_state));
    lemma_lookup_at(km2, at2, here, c.key_state);

    let km3 = remembered(km2, cap, there, down.key_state);
    assert(down.left(down.selected_identity()).key_memory == km3);
    if is_default(down.key_state) {
        assert(km3 == km2);
    } else {
        // a selection other than the default one can only have come from the memory
        assert(lookup(km1, there) is Some);
        assert(j >= 0);
        lemma_lookup_at(km2, 0, there, km2[0].1);
        lemma_stored_wf(km2, cap, there, down.key_state);
        assert(km3 == seq![(there, down.key_state)] + km2.remove(0));
        assert(km3[1] == km2.remove(0)[0]);
        assert(km2.remove(0)[0] == km2[1]);
        lemma_lookup_at(km3, 1, here, c.key_state);
    }
    assert(lookup(km3, here) == Some(c.key_state));
    lemma_stable_sorted_ascending(again, down.sort);
    let back = down.leave_to_parent(Some((c.current, again)));
    assert(back == down.left(down.selected_identity()).arrived(c.current, again));
}

} // verus!
