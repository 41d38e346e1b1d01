//! Selection snapshots of one list, and the clamping rule for moving a
//! selection by a signed number of rows.

use vstd::prelude::*;

verus! {

/// Cursor position of one list: the selected row, if any, and the first row
/// that is scrolled into view.
#[derive(Clone, Copy, Debug, PartialEq, Eq, Structural)]
pub struct SelectionState {
    pub selected_index: Option<usize>,
    pub scroll_offset: usize,
}

/// The row that a selection counts as: the selected row, or row 0 when
/// nothing is selected.
pub open spec fn effective_index(state: SelectionState) -> int {
    match state.selected_index {
        Some(i) => i as int,
        None => 0,
    }
}

/// A state is default when its effective row is the first one. Only
/// non-default states are worth remembering.
pub open spec fn is_default(state: SelectionState) -> bool {
    effective_index(state) == 0
}

/// `index + delta`, held within `0 ..= len - 1`.
pub open spec fn clamped(index: int, delta: int, len: int) -> int {
    if index + delta < 0 {
        0
    } else if index + delta > len - 1 {
        len - 1
    } else {
        index + delta
    }
}

/// The selection that a list of `len` rows gets when row `index` is asked
/// for: none for an empty list, else the row held within the list.
pub open spec fn selection_in(index: int, len: int) -> Option<usize> {
    if len <= 0 {
        None
    } else {
        Some(clamped(index, 0, len) as usize)
    }
}

/// A selection fits a list of `len` rows when it names one of its rows or
/// none.
pub open spec fn fits(state: SelectionState, len: nat) -> bool {
    state.selected_index matches Some(i) ==> i < len
}

/// A selection is settled on a list when it fits it and names a row
/// whenever there is one.
pub open spec fn settled_on(state: SelectionState, len: nat) -> bool {
    &&& fits(state, len)
    &&& state.selected_index is None <==> len == 0
}

/// The state brought to a list of `len` rows: its row held within the
/// list, row 0 where it names none; on an empty list nothing is selected
/// and the list is scrolled to the top.
pub open spec fn settled(state: SelectionState, len: nat) -> SelectionState {
    SelectionState {
        selected_index: selection_in(effective_index(state), len as int),
        scroll_offset: if len == 0 {
            0
        } else {
            state.scroll_offset
        },
    }
}

/// The state with its row held within a list of `len` rows, row 0 where
/// it names none, and nothing selected on an empty list. How far the list
/// is scrolled stays as it is.
pub open spec fn placed(state: SelectionState, len: nat) -> SelectionState {
    SelectionState {
        selected_index: selection_in(effective_index(state), len as int),
        scroll_offset: state.scroll_offset,
    }
}

/// The state that a list of `len` rows starts with, given what the memory
/// holds for its node.
pub open spec fn restored(found: Option<SelectionState>, len: nat) -> SelectionState {
    settled(
        match found {
            Some(state) => state,
            None => SelectionState { selected_index: None, scroll_offset: 0 },
        },
        len,
    )
}

impl SelectionState {
    /// The state of a list that has not been visited: nothing selected,
    /// scrolled to the top.
    pub fn new() -> (state: SelectionState)
        ensures
            state.selected_index is None,
            state.scroll_offset == 0,
    {
        SelectionState { selected_index: None, scroll_offset: 0 }
    }

    /// A state scrolled to the top with the given selection.
    pub fn with_selected(index: Option<usize>) -> (state: SelectionState)
        ensures
            state.selected_index == index,
            state.scroll_offset == 0,
    {
        SelectionState { selected_index: index, scroll_offset: 0 }
    }

    /// Sets the selection. Clearing it also scrolls back to the top.
    pub fn select(&mut self, index: Option<usize>)
        ensures
            final(self).selected_index == index,
            final(self).scroll_offset == (if index is None {
                0
            } else {
                old(self).scroll_offset
            }),
    {
        self.selected_index = index;
        if index.is_none() {
            self.scroll_offset = 0;
        }
    }

    /// The selected row, or 0 when nothing is selected.
    pub fn effective(&self) -> (index: usize)
        ensures
            index == effective_index(*self),
    {
        match self.selected_index {
            Some(i) => i,
            None => 0,
        }
    }

    /// Whether the state differs from the default position.
    pub fn is_non_default(&self) -> (b: bool)
        ensures
            b == !is_default(*self),
    {
        self.effective() != 0
    }
}

/// Moves `index` by `delta` rows within a list of `len` rows, stopping at
/// either end instead of wrapping.
pub fn shift_index(index: usize, delta: isize, len: usize) -> (moved: usize)
    requires
        len > 0,
    ensures
        moved == clamped(index as int, delta as int, len as int),
        moved < len,
{
    let last: usize = len - 1;
    if delta >= 0 {
        let step: usize = delta as usize;
        if index >= last {
            last
        } else if step >= last - index {
            last
        } else {
            index + step
        }
    } else {
        let step: usize = ((-(delta + 1)) as usize) + 1;
        if step >= index {
            0
        } else if index - step > last {
            last
        } else {
            index - step
        }
    }
}

/// Holds `index` within a list of `len` rows; no row for an empty list.
pub fn place_index(index: usize, len: usize) -> (placed: Option<usize>)
    ensures
        placed == selection_in(index as int, len as int),
        placed is None <==> len == 0,
        placed matches Some(i) ==> i < len,
{
    if len == 0 {
        None
    } else if index > len - 1 {
        Some(len - 1)
    } else {
        Some(index)
    }
}

/// Holds the row of a state within a list of `len` rows.
pub fn place_state(state: SelectionState, len: usize) -> (held: SelectionState)
    ensures
        held == placed(state, len as nat),
        settled_on(held, len as nat),
        settled_on(state, len as nat) ==> held == state,
{
    SelectionState {
        selected_index: place_index(state.effective(), len),
        scroll_offset: state.scroll_offset,
    }
}

/// Brings a state to a list of `len` rows.
pub fn settle(state: SelectionState, len: usize) -> (brought: SelectionState)
    ensures
        brought == settled(state, len as nat),
        settled_on(brought, len as nat),
{
    SelectionState {
        selected_index: place_index(state.effective(), len),
        scroll_offset: if len == 0 {
            0
        } else {
            state.scroll_offset
        },
    }
}

/// The state that a list of `len` rows starts with, given what was found
/// in the memory for its node.
pub fn restore(found: Option<SelectionState>, len: usize) -> (state: SelectionState)
    ensures
        state == restored(found, len as nat),
        settled_on(state, len as nat),
{
    match found {
        Some(kept) => settle(kept, len),
        None => settle(SelectionState::new(), len),
    }
}

} // verus!
