//! Which pane of the screen takes the keyboard.

use vstd::prelude::*;

verus! {

/// The panes, in the order in which the focus walks through them.
#[derive(Clone, Copy, Debug, PartialEq, Eq, Structural)]
pub enum FocusedPane {
    KeySelector,
    ValueSelector,
    ValueInspector,
}

/// Number of panes.
pub open spec fn pane_count() -> int {
    3
}

impl FocusedPane {
    /// Position of the pane in the focus order.
    pub open spec fn ordinal(self) -> int {
        match self {
            FocusedPane::KeySelector => 0,
            FocusedPane::ValueSelector => 1,
            FocusedPane::ValueInspector => 2,
        }
    }

    /// The pane at a position of the focus order, counted cyclically.
    pub open spec fn at(position: int) -> FocusedPane {
        let p = position % pane_count();
        if p == 0 {
            FocusedPane::KeySelector
        } else if p == 1 {
            FocusedPane::ValueSelector
        } else {
            FocusedPane::ValueInspector
        }
    }

    /// The pane after this one, the first following the last.
    pub fn next(self) -> (pane: FocusedPane)
        ensures
            pane == FocusedPane::at(self.ordinal() + 1),
    {
        match self {
            FocusedPane::KeySelector => FocusedPane::ValueSelector,
            FocusedPane::ValueSelector => FocusedPane::ValueInspector,
            FocusedPane::ValueInspector => FocusedPane::KeySelector,
        }
    }

    /// The pane before this one, the last preceding the first.
    pub fn previous(self) -> (pane: FocusedPane)
        ensures
            pane == FocusedPane::at(self.ordinal() + pane_count() - 1),
    {
        match self {
            FocusedPane::KeySelector => FocusedPane::ValueInspector,
            FocusedPane::ValueSelector => FocusedPane::KeySelector,
            FocusedPane::ValueInspector => FocusedPane::ValueSelector,
        }
    }
}

impl Default for FocusedPane {
    fn default() -> (pane: FocusedPane)
        ensures
            pane == FocusedPane::KeySelector,
    {
        FocusedPane::KeySelector
    }
}

/// Going forward and then back, or back and then forward, returns to the
/// pane one started from.
pub proof fn lemma_focus_next_previous_inverse(pane: FocusedPane)
    ensures
        FocusedPane::at(FocusedPane::at(pane.ordinal() + 1).ordinal() + pane_count() - 1) == pane,
        FocusedPane::at(FocusedPane::at(pane.ordinal() + pane_count() - 1).ordinal() + 1) == pane,
        FocusedPane::at(pane.ordinal()) == pane,
{
}

} // verus!
