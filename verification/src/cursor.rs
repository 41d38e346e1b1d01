//! The navigation state as a mathematical value, and each operation as a
//! function from state to state.

use vstd::prelude::*;
use crate::cache::Entry;
use crate::cache::keys_distinct;
use crate::cache::lookup;
use crate::cache::remembered;
use crate::cache::touched;
use crate::node::Node;
use crate::node::Value;
use crate::selection::SelectionState;
use crate::selection::clamped;
use crate::selection::effective_index;
use crate::selection::fits;
use crate::selection::restored;
use crate::selection::placed;
use crate::selection::settled_on;
use crate::sort::KeySort;
use crate::sort::stable_sorted;

verus! {

/// Position of the first node with the identity, if there is one.
pub open spec fn position_of(nodes: Seq<Node>, identity: usize) -> Option<usize>
    decreases nodes.len(),
{
    if nodes.len() == 0 {
        None
    } else {
        match position_of(nodes.drop_last(), identity) {
            Some(i) => Some(i),
            None => if nodes.last().identity == identity {
                Some((nodes.len() - 1) as usize)
            } else {
                None
            },
        }
    }
}

/// No identity occurs twice among the nodes.
pub open spec fn identities_distinct(nodes: Seq<Node>) -> bool {
    forall|i: int, j: int|
        0 <= i < j < nodes.len() ==> (#[trigger] nodes[i]).identity != (#[trigger] nodes[j]).identity
}

/// The value memory after the value selection was saved for the child that
/// was selected, if one was.
pub open spec fn saved_for(
    memory: Seq<Entry>,
    capacity: nat,
    child: Option<usize>,
    state: SelectionState,
) -> Seq<Entry> {
    match child {
        Some(identity) => remembered(memory, capacity, identity, state),
        None => memory,
    }
}

/// The state before anything is entered: `root` stands for the current
/// node, nothing is listed, selected or remembered.
pub open spec fn initial(root: Node, capacity: nat) -> Cursor {
    Cursor {
        current: root,
        children: Seq::empty(),
        key_state: SelectionState { selected_index: None, scroll_offset: 0 },
        value_state: SelectionState { selected_index: None, scroll_offset: 0 },
        key_memory: Seq::empty(),
        key_capacity: capacity,
        value_memory: Seq::empty(),
        value_capacity: capacity,
        sort: KeySort::SubkeyCount,
    }
}

/// Where navigation stands: the node entered, its children in display
/// order, the two selections, what is remembered of other nodes, and the
/// ordering criterion.
pub struct Cursor {
    pub current: Node,
    pub children: Seq<Node>,
    pub key_state: SelectionState,
    pub value_state: SelectionState,
    pub key_memory: Seq<Entry>,
    pub key_capacity: nat,
    pub value_memory: Seq<Entry>,
    pub value_capacity: nat,
    pub sort: KeySort,
}

impl Cursor {
    /// The selected child, if one is selected.
    pub open spec fn selected_child(self) -> Option<Node> {
        match self.key_state.selected_index {
            Some(i) => if i < self.children.len() {
                Some(self.children[i as int])
            } else {
                None
            },
            None => None,
        }
    }

    /// Identity of the selected child.
    pub open spec fn selected_identity(self) -> Option<usize> {
        match self.selected_child() {
            Some(child) => Some(child.identity),
            None => None,
        }
    }

    /// The values shown: those of the selected child.
    pub open spec fn values(self) -> Seq<Value> {
        match self.selected_child() {
            Some(child) => child.values@,
            None => Seq::empty(),
        }
    }

    /// Both selections name rows that exist, the value selection names one
    /// whenever there is a value, and both memories keep their bound.
    pub open spec fn wf(self) -> bool {
        &&& self.children.len() <= usize::MAX
        &&& fits(self.key_state, self.children.len())
        &&& settled_on(self.value_state, self.values().len())
        &&& keys_distinct(self.key_memory)
        &&& keys_distinct(self.value_memory)
        &&& 0 < self.key_capacity
        &&& 0 < self.value_capacity
        &&& self.key_memory.len() <= self.key_capacity
        &&& self.value_memory.len() <= self.value_capacity
    }

    /// Selects the child at `index`, or none, and loads its values. `memory`
    /// is the value memory to restore from.
    pub open spec fn with_child(self, memory: Seq<Entry>, index: Option<usize>) -> Cursor {
        match index {
            Some(i) if i < self.children.len() => {
                let child = self.children[i as int];
                Cursor {
                    key_state: SelectionState {
                        selected_index: Some(i),
                        scroll_offset: self.key_state.scroll_offset,
                    },
                    value_state: restored(lookup(memory, child.identity), child.values@.len()),
                    value_memory: touched(memory, child.identity),
                    ..self
                }
            },
            _ => Cursor {
                key_state: SelectionState { selected_index: None, scroll_offset: 0 },
                value_state: SelectionState { selected_index: None, scroll_offset: 0 },
                value_memory: memory,
                ..self
            },
        }
    }

    /// Selects a child: a non-default value selection is first remembered
    /// for the child selected so far.
    pub open spec fn select_child(self, index: Option<usize>) -> Cursor {
        self.with_child(
            saved_for(self.value_memory, self.value_capacity, self.selected_identity(), self.value_state),
            index,
        )
    }

    /// The state on leaving the current node: its non-default selections
    /// are remembered under its identity, and the value selection also
    /// under that of the child `left_child` that was selected.
    pub open spec fn left(self, left_child: Option<usize>) -> Cursor {
        Cursor {
            key_memory: remembered(self.key_memory, self.key_capacity, self.current.identity, self.key_state),
            value_memory: saved_for(
                remembered(self.value_memory, self.value_capacity, self.current.identity, self.value_state),
                self.value_capacity,
                left_child,
                self.value_state,
            ),
            ..self
        }
    }

    /// The state on arriving at `node`: its children stand in the active
    /// order, and the selections are what the memories hold for `node` and
    /// for the child that gets selected.
    pub open spec fn arrived(self, node: Node, children: Seq<Node>) -> Cursor {
        let sorted = stable_sorted(children, self.sort);
        let key_state = restored(lookup(self.key_memory, node.identity), sorted.len());
        Cursor {
            current: node,
            children: sorted,
            key_state,
            key_memory: touched(self.key_memory, node.identity),
            ..self
        }.with_child(self.value_memory, key_state.selected_index)
    }

    /// Enters `node`: remembers the selections of the node left, takes the
    /// children in the active order, and restores what is remembered of
    /// `node`.
    pub open spec fn select_node(self, node: Node, children: Seq<Node>) -> Cursor {
        self.left(self.selected_identity()).arrived(node, children)
    }

    /// Enters the selected child, whose children are `children`. Nothing
    /// happens where no child is selected.
    pub open spec fn enter_child(self, children: Seq<Node>) -> Cursor {
        match self.selected_child() {
            Some(child) => self.select_node(child, children),
            None => self,
        }
    }

    /// Goes up to the parent, given with its children. Nothing happens at
    /// the root, which has none.
    pub open spec fn leave_to_parent(self, parent: Option<(Node, Seq<Node>)>) -> Cursor {
        match parent {
            Some((node, children)) => self.select_node(node, children),
            None => self,
        }
    }

    /// Moves the child selection by `delta` rows, stopping at either end.
    pub open spec fn move_child_by(self, delta: int) -> Cursor {
        if self.children.len() == 0 {
            self
        } else {
            self.select_child(
                Some(clamped(effective_index(self.key_state), delta, self.children.len() as int) as usize),
            )
        }
    }

    /// Moves the value selection by `delta` rows, stopping at either end.
    pub open spec fn move_value_by(self, delta: int) -> Cursor {
        if self.values().len() == 0 {
            self
        } else {
            Cursor {
                value_state: SelectionState {
                    selected_index: Some(
                        clamped(effective_index(self.value_state), delta, self.values().len() as int) as usize,
                    ),
                    scroll_offset: self.value_state.scroll_offset,
                },
                ..self
            }
        }
    }

    /// Orders the children by `mode` and finds the selected child again by
    /// its identity.
    pub open spec fn sort_by(self, mode: KeySort) -> Cursor {
        let sorted = stable_sorted(self.children, mode);
        match self.selected_child() {
            Some(child) => {
                let found = position_of(sorted, child.identity);
                let moved = Cursor {
                    children: sorted,
                    key_state: SelectionState {
                        selected_index: found,
                        scroll_offset: if found is None {
                            0
                        } else {
                            self.key_state.scroll_offset
                        },
                    },
                    sort: mode,
                    ..self
                };
                Cursor { value_state: placed(self.value_state, moved.values().len()), ..moved }
            },
            None => Cursor { children: sorted, sort: mode, ..self },
        }
    }

    /// Advances to the next ordering criterion and orders the children by
    /// it.
    pub open spec fn cycle_sort(self) -> Cursor {
        self.sort_by(self.sort.successor())
    }
}

} // verus!
