//! The navigator: where one stands in the tree, what is selected, and the
//! operations that move about. The tree itself is read by the caller, who
//! hands each operation the nodes that it needs.

use vstd::prelude::*;
use crate::cache::SelectionCache;
use crate::cursor::Cursor;
use crate::cursor::initial;
use crate::cursor::position_of;
use crate::node::Node;
use crate::node::Value;
use crate::selection::SelectionState;
use crate::selection::restore;
use crate::selection::place_state;
use crate::selection::shift_index;
use crate::sort::KeySort;
use crate::sort::sort_nodes;

verus! {

/// Number of nodes whose selection each of the two memories keeps.
pub const CACHE_CAPACITY: usize = 200;

/// The selections of the two lists on screen.
#[derive(Clone, Copy, Debug, PartialEq, Eq, Structural)]
pub struct CurrentKeyState {
    pub key_selector_state: SelectionState,
    pub value_selector_state: SelectionState,
}

/// Where navigation stands in the tree, with its selection memory.
#[derive(Debug)]
pub struct Navigation {
    current_key: Node,
    current_subkeys: Vec<Node>,
    table_states: CurrentKeyState,
    key_state_cache: SelectionCache,
    value_state_cache: SelectionCache,
    key_sort_method: KeySort,
}

impl View for Navigation {
    type V = Cursor;

    closed spec fn view(&self) -> Cursor {
        Cursor {
            current: self.current_key,
            children: self.current_subkeys@,
            key_state: self.table_states.key_selector_state,
            value_state: self.table_states.value_selector_state,
            key_memory: self.key_state_cache@,
            key_capacity: self.key_state_cache.capacity(),
            value_memory: self.value_state_cache@,
            value_capacity: self.value_state_cache.capacity(),
            sort: self.key_sort_method,
        }
    }
}

/// Finds the first node with the identity.
pub fn find_identity(nodes: &Vec<Node>, identity: usize) -> (found: Option<usize>)
    ensures
        found == position_of(nodes@, identity),
        found matches Some(i) ==> i < nodes@.len() && nodes@[i as int].identity == identity,
{
    let mut i: usize = 0;
    proof {
        assert(nodes@.take(0) =~= Seq::<Node>::empty());
    }
    while i < nodes.len()
        invariant
            i <= nodes@.len(),
            position_of(nodes@.take(i as int), identity) is None,
        decreases nodes@.len() - i,
    {
        proof {
            assert(nodes@.take(i + 1).drop_last() =~= nodes@.take(i as int));
        }
        if nodes[i].identity == identity {
            proof {
                lemma_position_of_prefix(nodes@, i + 1, identity);
            }
            return Some(i);
        }
        i += 1;
    }
    proof {
        assert(nodes@.take(i as int) =~= nodes@);
    }
    None
}

/// What is found among the first `k` nodes is what is found among all.
pub proof fn lemma_position_of_prefix(nodes: Seq<Node>, k: int, identity: usize)
    requires
        0 <= k <= nodes.len(),
        position_of(nodes.take(k), identity) is Some,
    ensures
        position_of(nodes, identity) == position_of(nodes.take(k), identity),
    decreases nodes.len() - k,
{
    if k == nodes.len() {
        assert(nodes.take(k) =~= nodes);
    } else {
        assert(nodes.take(k + 1).drop_last() =~= nodes.take(k));
        lemma_position_of_prefix(nodes, k + 1, identity);
    }
}

impl Navigation {
    /// The selections fit their lists and the memories keep their bound.
    pub open spec fn wf(&self) -> bool {
        self@.wf()
    }

    /// Starts at `root`, whose children are `subkeys`, with nothing
    /// remembered and the default ordering.
    pub fn new(root: Node, subkeys: Vec<Node>) -> (navigation: Navigation)
        ensures
            navigation.wf(),
            navigation@ == initial(root, CACHE_CAPACITY as nat).select_node(root, subkeys@),
    {
        let mut navigation = Navigation {
            current_key: root,
            current_subkeys: subkeys,
            table_states: CurrentKeyState {
                key_selector_state: SelectionState::new(),
                value_selector_state: SelectionState::new(),
            },
            key_state_cache: SelectionCache::new(CACHE_CAPACITY),
            value_state_cache: SelectionCache::new(CACHE_CAPACITY),
            key_sort_method: KeySort::SubkeyCount,
        };
        navigation.settle_in();
        navigation
    }

    /// Enters `key` and hands the navigator back.
    pub fn with_selected_key(self, key: Node, subkeys: Vec<Node>) -> (navigation: Navigation)
        requires
            self.wf(),
        ensures
            navigation.wf(),
            navigation@ == self@.select_node(key, subkeys@),
    {
        let mut navigation = self;
        navigation.select_key(key, subkeys);
        navigation
    }

    /// Remembers the selections of the node that is being left.
    fn leave(&mut self, left_child: Option<usize>)
        requires
            old(self).key_state_cache.wf(),
            old(self).value_state_cache.wf(),
        ensures
            final(self).key_state_cache.wf(),
            final(self).value_state_cache.wf(),
            final(self)@ == old(self)@.left(left_child),
    {
        let identity = self.current_key.identity;
        self.key_state_cache.remember(identity, self.table_states.key_selector_state);
        self.value_state_cache.remember(identity, self.table_states.value_selector_state);
        match left_child {
            Some(child) => {
                self.value_state_cache.remember(child, self.table_states.value_selector_state);
            },
            None => {},
        }
    }

    /// Takes `key` as the current node and restores what is remembered of
    /// it.
    fn arrive(&mut self, key: Node, subkeys: Vec<Node>)
        requires
            old(self).key_state_cache.wf(),
            old(self).value_state_cache.wf(),
        ensures
            final(self).wf(),
            final(self)@ == old(self)@.arrived(key, subkeys@),
    {
        self.current_key = key;
        self.current_subkeys = subkeys;
        self.settle_in();
    }

    /// Puts the children of the current node in the active order and
    /// restores the selections remembered for it.
    fn settle_in(&mut self)
        requires
            old(self).key_state_cache.wf(),
            old(self).value_state_cache.wf(),
        ensures
            final(self).wf(),
            final(self)@ == old(self)@.arrived(old(self)@.current, old(self)@.children),
    {
        sort_nodes(&mut self.current_subkeys, self.key_sort_method);
        let found = self.key_state_cache.get(self.current_key.identity);
        self.table_states.key_selector_state = restore(found, self.current_subkeys.len());
        let index = self.table_states.key_selector_state.selected_index;
        self.load_child(index);
    }

    /// Selects the child at `index`, or none, and restores the value
    /// selection remembered for it.
    fn load_child(&mut self, index: Option<usize>)
        requires
            old(self).key_state_cache.wf(),
            old(self).value_state_cache.wf(),
        ensures
            final(self).wf(),
            final(self)@ == old(self)@.with_child(old(self)@.value_memory, index),
    {
        match index {
            Some(i) if i < self.current_subkeys.len() => {
                let identity = self.current_subkeys[i].identity;
                let count = self.current_subkeys[i].values.len();
                let found = self.value_state_cache.get(identity);
                self.table_states.key_selector_state.selected_index = Some(i);
                self.table_states.value_selector_state = restore(found, count);
            },
            _ => {
                self.table_states.key_selector_state = SelectionState::new();
                self.table_states.value_selector_state = SelectionState::new();
            },
        }
        proof {
            vstd::std_specs::vec::axiom_spec_len(&self.current_subkeys);
        }
    }

    /// Identity of the selected child.
    fn selected_identity(&self) -> (identity: Option<usize>)
        ensures
            identity == self@.selected_identity(),
    {
        match self.table_states.key_selector_state.selected_index {
            Some(i) => if i < self.current_subkeys.len() {
                Some(self.current_subkeys[i].identity)
            } else {
                None
            },
            None => None,
        }
    }

    /// Selects the child at `index`, first remembering the value selection
    /// of the child selected so far.
    fn choose_child(&mut self, index: Option<usize>)
        requires
            old(self).wf(),
        ensures
            final(self).wf(),
            final(self)@ == old(self)@.select_child(index),
    {
        match self.selected_identity() {
            Some(child) => {
                self.value_state_cache.remember(child, self.table_states.value_selector_state);
            },
            None => {},
        }
        self.load_child(index);
    }

    /// Enters `key`, whose children are `subkeys`. The selections of the
    /// node left are remembered where they are not the default, the
    /// children are put in the active order, and the selections remembered
    /// for `key` and for its selected child are restored.
    pub fn select_key(&mut self, key: Node, subkeys: Vec<Node>)
        requires
            old(self).wf(),
        ensures
            final(self).wf(),
            final(self)@ == old(self)@.select_node(key, subkeys@),
    {
        let left_child = self.selected_identity();
        self.leave(left_child);
        self.arrive(key, subkeys);
    }

    /// Enters the selected child, whose children are `subkeys`. Where no
    /// child is selected nothing happens, and `subkeys` is dropped.
    pub fn enter_key(&mut self, subkeys: Vec<Node>)
        requires
            old(self).wf(),
        ensures
            final(self).wf(),
            final(self)@ == old(self)@.enter_child(subkeys@),
    {
        match self.table_states.key_selector_state.selected_index {
            Some(i) => {
                if i < self.current_subkeys.len() {
                    let left_child = Some(self.current_subkeys[i].identity);
                    self.leave(left_child);
                    let child = self.current_subkeys.remove(i);
                    self.arrive(child, subkeys);
                }
            },
            None => {},
        }
    }

    /// Goes up to the parent, given with its children. At the root, which
    /// has no parent, nothing changes.
    pub fn leave_key(&mut self, parent: Option<(Node, Vec<Node>)>)
        requires
            old(self).wf(),
        ensures
            final(self).wf(),
            final(self)@ == old(self)@.leave_to_parent(
                match parent {
                    Some((node, subkeys)) => Some((node, subkeys@)),
                    None => None,
                },
            ),
            parent is None ==> *final(self) == *old(self),
    {
        match parent {
            Some((node, subkeys)) => {
                self.select_key(node, subkeys);
            },
            None => {},
        }
    }

    /// Selects the child that has the identity of `key`, or none where
    /// `key` is `None` or no child has it, and shows its values.
    pub fn select_subkey(&mut self, key: Option<&Node>)
        requires
            old(self).wf(),
        ensures
            final(self).wf(),
            final(self)@ == old(self)@.select_child(
                match key {
                    Some(node) => position_of(old(self)@.children, node.identity),
                    None => None,
                },
            ),
    {
        let index = match key {
            Some(node) => find_identity(&self.current_subkeys, node.identity),
            None => None,
        };
        self.choose_child(index);
    }

    /// Moves the child selection by `n_keys` rows, stopping at the first
    /// and the last child, and shows the values of the child reached.
    /// Without children nothing happens.
    pub fn change_subkey_by(&mut self, n_keys: isize)
        requires
            old(self).wf(),
        ensures
            final(self).wf(),
            final(self)@ == old(self)@.move_child_by(n_keys as int),
    {
        let count = self.current_subkeys.len();
        if count > 0 {
            let index = self.table_states.key_selector_state.effective();
            let moved = shift_index(index, n_keys, count);
            self.choose_child(Some(moved));
        }
    }

    /// Moves the value selection by `n_keys` rows, stopping at the first
    /// and the last value. Without values nothing happens.
    pub fn change_value_by(&mut self, n_keys: isize)
        requires
            old(self).wf(),
        ensures
            final(self).wf(),
            final(self)@ == old(self)@.move_value_by(n_keys as int),
    {
        let count = self.value_count();
        if count > 0 {
            let index = self.table_states.value_selector_state.effective();
            let moved = shift_index(index, n_keys, count);
            self.table_states.value_selector_state.selected_index = Some(moved);
        }
    }

    /// Puts the children in the order of `sort_type`, nodes that tie
    /// staying as they stood, and finds the selected child again by its
    /// identity.
    pub fn sort_subkeys(&mut self, sort_type: KeySort)
        requires
            old(self).wf(),
        ensures
            final(self).wf(),
            final(self)@ == old(self)@.sort_by(sort_type),
    {
        let selected = self.selected_identity();
        sort_nodes(&mut self.current_subkeys, sort_type);
        self.key_sort_method = sort_type;
        proof {
            vstd::std_specs::vec::axiom_spec_len(&self.current_subkeys);
        }
        match selected {
            Some(identity) => {
                let found = find_identity(&self.current_subkeys, identity);
                self.table_states.key_selector_state.select(found);
                let count = self.value_count();
                self.table_states.value_selector_state = place_state(
                    self.table_states.value_selector_state,
                    count,
                );
            },
            None => {},
        }
    }

    /// Advances to the next ordering criterion and orders the children by
    /// it.
    pub fn change_subkey_sort(&mut self)
        requires
            old(self).wf(),
        ensures
            final(self).wf(),
            final(self)@ == old(self)@.cycle_sort(),
    {
        let mode = self.key_sort_method.next();
        self.sort_subkeys(mode);
    }

    /// The node that is entered.
    pub fn current_key(&self) -> (node: &Node)
        ensures
            *node == self@.current,
    {
        &self.current_key
    }

    /// The path of the node that is entered, for display above the lists.
    pub fn current_path(&self) -> (path: &str)
        ensures
            path@ == self@.current.path@,
    {
        self.current_key.path.as_str()
    }

    /// The children of the current node, in display order.
    pub fn current_subkeys(&self) -> (nodes: &Vec<Node>)
        ensures
            nodes@ == self@.children,
    {
        &self.current_subkeys
    }

    /// The two selections.
    pub fn table_states(&self) -> (states: CurrentKeyState)
        ensures
            states.key_selector_state == self@.key_state,
            states.value_selector_state == self@.value_state,
    {
        self.table_states
    }

    /// The active ordering criterion.
    pub fn key_sort_method(&self) -> (mode: KeySort)
        ensures
            mode == self@.sort,
    {
        self.key_sort_method
    }

    /// Row of the selected child.
    pub fn selected_subkey_index(&self) -> (index: Option<usize>)
        ensures
            index == self@.key_state.selected_index,
    {
        self.table_states.key_selector_state.selected_index
    }

    /// Row of the selected value.
    pub fn selected_value_index(&self) -> (index: Option<usize>)
        ensures
            index == self@.value_state.selected_index,
    {
        self.table_states.value_selector_state.selected_index
    }

    /// The selected child.
    pub fn selected_subkey(&self) -> (node: Option<&Node>)
        ensures
            match node {
                Some(child) => self@.selected_child() == Some(*child),
                None => self@.selected_child() is None,
            },
    {
        match self.table_states.key_selector_state.selected_index {
            Some(i) => if i < self.current_subkeys.len() {
                Some(&self.current_subkeys[i])
            } else {
                None
            },
            None => None,
        }
    }

    /// The value in row `index` of the values shown.
    pub fn value_at(&self, index: usize) -> (value: Option<&Value>)
        ensures
            match value {
                Some(v) => index < self@.values().len() && *v == self@.values()[index as int],
                None => index >= self@.values().len(),
            },
    {
        match self.selected_subkey() {
            Some(child) => if index < child.values.len() {
                Some(&child.values[index])
            } else {
                None
            },
            None => None,
        }
    }

    /// The selected value.
    pub fn selected_value(&self) -> (value: Option<&Value>)
        requires
            self.wf(),
        ensures
            match value {
                Some(v) => self@.value_state.selected_index matches Some(i) && *v == self@.values()[
                    i as int],
                None => self@.value_state.selected_index is None,
            },
    {
        match self.table_states.value_selector_state.selected_index {
            Some(i) => self.value_at(i),
            None => None,
        }
    }

    /// Records how far the list of children is scrolled.
    pub fn set_key_scroll_offset(&mut self, offset: usize)
        ensures
            final(self)@ == (Cursor {
                key_state: SelectionState { scroll_offset: offset, ..old(self)@.key_state },
                ..old(self)@
            }),
            old(self).wf() ==> final(self).wf(),
    {
        self.table_states.key_selector_state.scroll_offset = offset;
    }

    /// Records how far the list of values is scrolled.
    pub fn set_value_scroll_offset(&mut self, offset: usize)
        ensures
            final(self)@ == (Cursor {
                value_state: SelectionState { scroll_offset: offset, ..old(self)@.value_state },
                ..old(self)@
            }),
            old(self).wf() ==> final(self).wf(),
    {
        self.table_states.value_selector_state.scroll_offset = offset;
    }

    /// Number of values shown.
    pub fn value_count(&self) -> (count: usize)
        ensures
            count == self@.values().len(),
    {
        match self.table_states.key_selector_state.selected_index {
            Some(i) => if i < self.current_subkeys.len() {
                self.current_subkeys[i].values.len()
            } else {
                0
            },
            None => 0,
        }
    }
}

} // verus!
