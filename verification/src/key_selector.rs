//! A key list that keeps the levels above it on a stack: entering a key
//! pushes the list shown, leaving pops it again. The selection of a level
//! that was left is kept in a bounded memory until the level is entered
//! again.

use vstd::prelude::*;
use crate::cache::Entry;
use crate::cache::SelectionCache;
use crate::cache::lookup;
use crate::cache::stored;
use crate::cache::without;
use crate::handler::KeyCode;
use crate::handler::KeyEvent;
use crate::handler::Request;
use crate::navigation::CACHE_CAPACITY;
use crate::node::Node;
use crate::selection::SelectionState;
use crate::cache::memory_wf;

verus! {

/// The two kinds of list whose selection is remembered.
#[derive(Clone, Copy, Debug, PartialEq, Eq, Hash, Structural)]
pub enum TableType {
    RegistryKey,
    RegistryValue,
}

/// One list of keys: the children of the key at `key_file_offset`, with
/// the selection on them.
#[derive(Debug)]
pub struct Level {
    pub table_state: SelectionState,
    pub key_file_offset: usize,
    pub keys: Vec<Node>,
}

impl Level {
    /// The selected key of the level, if the selection names one.
    pub open spec fn selected_key(&self) -> Option<Node> {
        match self.table_state.selected_index {
            Some(i) => if i < self.keys@.len() {
                Some(self.keys@[i as int])
            } else {
                None
            },
            None => None,
        }
    }

    /// Path of the selected key.
    pub fn path(&self) -> (path: Option<String>)
        ensures
            match path {
                Some(p) => self.selected_key() matches Some(key) && p == key.path,
                None => self.selected_key() is None,
            },
    {
        match self.table_state.selected_index {
            Some(idx) => if idx < self.keys.len() {
                Some(self.keys[idx].path.clone())
            } else {
                None
            },
            None => None,
        }
    }
}

/// The memory of selections, by kind of list and file offset of the key
/// whose list it is. Each kind has its own bound.
#[derive(Debug)]
pub struct StateCache {
    keys: SelectionCache,
    values: SelectionCache,
}

impl StateCache {
    /// What is remembered of the lists of one kind, most recently used
    /// first.
    pub closed spec fn entries(&self, table: TableType) -> Seq<Entry> {
        match table {
            TableType::RegistryKey => self.keys@,
            TableType::RegistryValue => self.values@,
        }
    }

    /// The bound of each kind.
    pub closed spec fn capacity(&self, table: TableType) -> nat {
        match table {
            TableType::RegistryKey => self.keys.capacity(),
            TableType::RegistryValue => self.values.capacity(),
        }
    }

    /// Both kinds keep their bound and their distinct keys.
    pub closed spec fn wf(&self) -> bool {
        self.keys.wf() && self.values.wf()
    }

    /// What `wf` says, in terms of the entries.
    pub proof fn lemma_wf(&self, table: TableType)
        requires
            self.wf(),
        ensures
            memory_wf(self.entries(table), self.capacity(table)),
    {
    }

    /// An empty memory for `capacity` lists of each kind.
    pub fn new(capacity: usize) -> (cache: StateCache)
        requires
            0 < capacity <= crate::cache::MAX_CAPACITY,
        ensures
            cache.wf(),
            forall|table: TableType| #[trigger] cache.entries(table) == Seq::<Entry>::empty(),
            forall|table: TableType| #[trigger] cache.capacity(table) == capacity,
    {
        StateCache { keys: SelectionCache::new(capacity), values: SelectionCache::new(capacity) }
    }

    /// Takes out what is remembered of a list.
    pub fn pop(&mut self, table: TableType, offset: usize) -> (found: Option<SelectionState>)
        requires
            old(self).wf(),
        ensures
            final(self).wf(),
            found == lookup(old(self).entries(table), offset),
            final(self).entries(table) == without(old(self).entries(table), offset),
            forall|other: TableType|
                other != table ==> #[trigger] final(self).entries(other) == old(self).entries(other),
            forall|any: TableType| #[trigger] final(self).capacity(any) == old(self).capacity(any),
    {
        match table {
            TableType::RegistryKey => self.keys.pop(offset),
            TableType::RegistryValue => self.values.pop(offset),
        }
    }

    /// Remembers the selection of a list.
    pub fn push(&mut self, table: TableType, offset: usize, state: SelectionState)
        requires
            old(self).wf(),
        ensures
            final(self).wf(),
            final(self).entries(table) == stored(
                old(self).entries(table),
                old(self).capacity(table),
                offset,
                state,
            ),
            forall|other: TableType|
                other != table ==> #[trigger] final(self).entries(other) == old(self).entries(other),
            forall|any: TableType| #[trigger] final(self).capacity(any) == old(self).capacity(any),
    {
        match table {
            TableType::RegistryKey => self.keys.push(offset, state),
            TableType::RegistryValue => self.values.push(offset, state),
        }
    }
}

/// The state of the key list as a value: the levels above, the level
/// shown, what is remembered of key lists, and whether to stop.
pub struct Levels {
    pub parents: Seq<Level>,
    pub current: Level,
    pub memory: Seq<Entry>,
    pub capacity: nat,
    pub exit: bool,
}

/// The state with another selection on the level shown.
pub open spec fn reselected(s: Levels, index: Option<usize>) -> Levels {
    Levels {
        current: Level {
            table_state: SelectionState {
                selected_index: index,
                scroll_offset: if index is None {
                    0
                } else {
                    s.current.table_state.scroll_offset
                },
            },
            ..s.current
        },
        ..s
    }
}

impl Levels {
    /// Selects the first key.
    pub open spec fn first_key(self) -> Levels {
        reselected(self, Some(0))
    }

    /// Selects the last key; nothing changes on an empty list.
    pub open spec fn last_key(self) -> Levels {
        if self.current.keys@.len() == 0 {
            self
        } else {
            reselected(self, Some((self.current.keys@.len() - 1) as usize))
        }
    }

    /// Selects the key after the selected one, stopping at the last; the
    /// first key where none is selected. Nothing changes on an empty list
    /// with a selection.
    pub open spec fn next_key(self) -> Levels {
        match self.current.table_state.selected_index {
            Some(i) => if self.current.keys@.len() == 0 {
                self
            } else if i + 1 < self.current.keys@.len() {
                reselected(self, Some((i + 1) as usize))
            } else {
                reselected(self, Some((self.current.keys@.len() - 1) as usize))
            },
            None => reselected(self, Some(0)),
        }
    }

    /// Selects the key before the selected one; from the first key the
    /// selection goes away, and from no selection it goes to the first key.
    pub open spec fn previous_key(self) -> Levels {
        match self.current.table_state.selected_index {
            Some(i) => if i == 0 {
                reselected(self, None)
            } else {
                reselected(self, Some((i - 1) as usize))
            },
            None => reselected(self, Some(0)),
        }
    }

    /// Enters the selected key, whose children are `next_keys`: the level
    /// shown goes onto the stack, and the new level gets the selection
    /// remembered for it, which leaves the memory. A key without children
    /// is not entered, and without a selected key nothing happens.
    pub open spec fn enter_key(self, next_keys: Vec<Node>) -> Levels {
        match self.current.selected_key() {
            Some(key) => if next_keys@.len() == 0 {
                self
            } else {
                Levels {
                    parents: self.parents.push(self.current),
                    current: Level {
                        table_state: match lookup(self.memory, key.identity) {
                            Some(state) => state,
                            None => SelectionState { selected_index: None, scroll_offset: 0 },
                        },
                        key_file_offset: key.identity,
                        keys: next_keys,
                    },
                    memory: without(self.memory, key.identity),
                    ..self
                }
            },
            None => self,
        }
    }

    /// Goes back to the level above: the selection of the level shown is
    /// remembered, and the level on top of the stack is shown again. At
    /// the top level nothing happens.
    pub open spec fn leave_key(self) -> Levels {
        if self.parents.len() == 0 {
            self
        } else {
            Levels {
                parents: self.parents.drop_last(),
                current: self.parents.last(),
                memory: stored(
                    self.memory,
                    self.capacity,
                    self.current.key_file_offset,
                    self.current.table_state,
                ),
                ..self
            }
        }
    }

    /// Asks to stop.
    pub open spec fn quit(self) -> Levels {
        Levels { exit: true, ..self }
    }

    /// What a key press does, apart from entering a key, which needs the
    /// tree.
    pub open spec fn after_key(self, key: KeyEvent) -> Levels {
        match key.code {
            KeyCode::Char(c) => if c == 'g' {
                self.first_key()
            } else if c == 'G' {
                self.last_key()
            } else if c == 'h' {
                self.leave_key()
            } else if c == 'j' {
                self.next_key()
            } else if c == 'k' {
                self.previous_key()
            } else if c == 'q' {
                self.quit()
            } else {
                self
            },
            _ => self,
        }
    }

    /// Path of the key that was entered last: the selected key of the
    /// level on top of the stack.
    pub open spec fn current_path(self) -> Option<String> {
        if self.parents.len() == 0 {
            None
        } else {
            match self.parents.last().selected_key() {
                Some(key) => Some(key.path),
                None => None,
            }
        }
    }
}

/// The key list with its stack of levels.
#[derive(Debug)]
pub struct RegistryKeySelectorWidget {
    parent_levels: Vec<Level>,
    state_cache: StateCache,
    current_level: Level,
    exit: bool,
}

impl View for RegistryKeySelectorWidget {
    type V = Levels;

    closed spec fn view(&self) -> Levels {
        Levels {
            parents: self.parent_levels@,
            current: self.current_level,
            memory: self.state_cache.entries(TableType::RegistryKey),
            capacity: self.state_cache.capacity(TableType::RegistryKey),
            exit: self.exit,
        }
    }
}

impl RegistryKeySelectorWidget {
    /// The memory keeps its bound.
    pub closed spec fn wf(&self) -> bool {
        self.state_cache.wf()
    }

    /// Starts with the children `keys` of the root, which is at
    /// `root_offset`, and the first of them selected.
    pub fn new(root_offset: usize, keys: Vec<Node>) -> (widget: RegistryKeySelectorWidget)
        ensures
            widget.wf(),
            widget@.parents == Seq::<Level>::empty(),
            widget@.current.keys == keys,
            widget@.current.key_file_offset == root_offset,
            widget@.current.table_state == (SelectionState { selected_index: Some(0), scroll_offset: 0 }),
            widget@.memory == Seq::<Entry>::empty(),
            widget@.capacity == CACHE_CAPACITY,
            !widget@.exit,
    {
        RegistryKeySelectorWidget {
            parent_levels: Vec::new(),
            state_cache: StateCache::new(CACHE_CAPACITY),
            current_level: Level {
                keys,
                key_file_offset: root_offset,
                table_state: SelectionState::with_selected(Some(0)),
            },
            exit: false,
        }
    }

    /// The level shown.
    pub fn current_level(&self) -> (level: &Level)
        ensures
            *level == self@.current,
    {
        &self.current_level
    }

    /// Number of levels above the one shown.
    pub fn depth(&self) -> (depth: usize)
        ensures
            depth == self@.parents.len(),
    {
        self.parent_levels.len()
    }

    /// Whether the list was asked to stop.
    pub fn is_done(&self) -> (done: bool)
        ensures
            done == self@.exit,
    {
        self.exit
    }

    /// The selected key of the level shown, which `enter_key` would enter.
    pub fn selected_key(&self) -> (key: Option<&Node>)
        ensures
            match key {
                Some(k) => self@.current.selected_key() == Some(*k),
                None => self@.current.selected_key() is None,
            },
    {
        match self.current_level.table_state.selected_index {
            Some(i) => if i < self.current_level.keys.len() {
                Some(&self.current_level.keys[i])
            } else {
                None
            },
            None => None,
        }
    }

    /// Enters the selected key, whose children are `next_keys`.
    pub fn enter_key(&mut self, next_keys: Vec<Node>)
        requires
            old(self).wf(),
        ensures
            final(self).wf(),
            final(self)@ == old(self)@.enter_key(next_keys),
    {
        match self.current_level.table_state.selected_index {
            Some(index) => {
                if index < self.current_level.keys.len() && next_keys.len() > 0 {
                    let offset = self.current_level.keys[index].identity;
                    let table_state = match self.state_cache.pop(TableType::RegistryKey, offset) {
                        Some(state) => state,
                        None => SelectionState::new(),
                    };
                    let mut level = Level { keys: next_keys, key_file_offset: offset, table_state };
                    core::mem::swap(&mut self.current_level, &mut level);
                    self.parent_levels.push(level);
                }
            },
            None => {},
        }
    }

    /// Goes back to the level above.
    pub fn leave_key(&mut self)
        requires
            old(self).wf(),
        ensures
            final(self).wf(),
            final(self)@ == old(self)@.leave_key(),
    {
        match self.parent_levels.pop() {
            Some(parent) => {
                self.state_cache.push(
                    TableType::RegistryKey,
                    self.current_level.key_file_offset,
                    self.current_level.table_state,
                );
                self.current_level = parent;
            },
            None => {
                assert(self.parent_levels@ =~= old(self).parent_levels@);
            },
        }
    }

    /// Selects the key before the selected one.
    pub fn previous_key(&mut self)
        ensures
            final(self)@ == old(self)@.previous_key(),
            old(self).wf() ==> final(self).wf(),
    {
        match self.current_level.table_state.selected_index {
            Some(index) => {
                if index == 0 {
                    self.current_level.table_state.select(None);
                } else {
                    self.current_level.table_state.select(Some(index - 1));
                }
            },
            None => self.current_level.table_state.select(Some(0)),
        }
    }

    /// Selects the key after the selected one, stopping at the last.
    pub fn next_key(&mut self)
        ensures
            final(self)@ == old(self)@.next_key(),
            old(self).wf() ==> final(self).wf(),
    {
        match self.current_level.table_state.selected_index {
            Some(index) => {
                let n = self.current_level.keys.len();
                if n > 0 {
                    if index < n - 1 {
                        self.current_level.table_state.select(Some(index + 1));
                    } else {
                        self.current_level.table_state.select(Some(n - 1));
                    }
                }
            },
            None => self.current_level.table_state.select(Some(0)),
        }
    }

    /// Selects the last key.
    pub fn last_key(&mut self)
        ensures
            final(self)@ == old(self)@.last_key(),
            old(self).wf() ==> final(self).wf(),
    {
        let n = self.current_level.keys.len();
        if n > 0 {
            self.current_level.table_state.select(Some(n - 1));
        }
    }

    /// Selects the first key.
    pub fn first_key(&mut self)
        ensures
            final(self)@ == old(self)@.first_key(),
            old(self).wf() ==> final(self).wf(),
    {
        self.current_level.table_state.select(Some(0));
    }

    /// Asks to stop.
    pub fn quit(&mut self)
        ensures
            final(self)@ == old(self)@.quit(),
            old(self).wf() ==> final(self).wf(),
    {
        self.exit = true;
    }

    /// Handles a key press. Entering a key needs its children: the result
    /// then asks for them, and nothing has changed yet.
    pub fn handle_key_event(&mut self, key_event: KeyEvent) -> (request: Request)
        requires
            old(self).wf(),
        ensures
            final(self).wf(),
            final(self)@ == old(self)@.after_key(key_event),
            request == (if key_event.code == KeyCode::Char('l') && old(self)@.current.selected_key() is Some {
                Request::SubkeysOfSelected
            } else {
                Request::Nothing
            }),
    {
        match key_event.code {
            KeyCode::Char(c) => {
                if c == 'g' {
                    self.first_key();
                } else if c == 'G' {
                    self.last_key();
                } else if c == 'h' {
                    self.leave_key();
                } else if c == 'l' {
                    if self.selected_key().is_some() {
                        return Request::SubkeysOfSelected;
                    }
                } else if c == 'j' {
                    self.next_key();
                } else if c == 'k' {
                    self.previous_key();
                } else if c == 'q' {
                    self.quit();
                }
                Request::Nothing
            },
            _ => Request::Nothing,
        }
    }

    /// Path of the key that was entered last.
    pub fn current_path(&self) -> (path: Option<String>)
        ensures
            path == self@.current_path(),
    {
        let depth = self.parent_levels.len();
        if depth == 0 {
            None
        } else {
            self.parent_levels[depth - 1].path()
        }
    }
}

} // verus!
