//! The application state: whether it runs, which pane has the focus, and
//! the navigator.

use vstd::prelude::*;
use crate::cursor::initial;
use crate::focus::FocusedPane;
use crate::focus::pane_count;
use crate::navigation::CACHE_CAPACITY;
use crate::navigation::Navigation;
use crate::node::Node;

verus! {

/// What the screen shows: the navigator and the pane that takes the keys.
#[derive(Debug)]
pub struct State {
    pub navigation: Navigation,
    pub focused_pane: FocusedPane,
}

impl State {
    /// Starts at `root`, whose children are `subkeys`, with the focus on
    /// the list of children.
    pub fn new(root: Node, subkeys: Vec<Node>) -> (state: State)
        ensures
            state.navigation.wf(),
            state.navigation@ == initial(root, CACHE_CAPACITY as nat).select_node(root, subkeys@),
            state.focused_pane == FocusedPane::KeySelector,
    {
        State { navigation: Navigation::new(root, subkeys), focused_pane: FocusedPane::KeySelector }
    }

    /// Moves the focus to the next pane, from the last to the first.
    pub fn focus_next_tab(&mut self)
        ensures
            final(self).focused_pane == FocusedPane::at(old(self).focused_pane.ordinal() + 1),
            final(self).navigation == old(self).navigation,
    {
        self.focused_pane = self.focused_pane.next();
    }

    /// Moves the focus to the previous pane, from the first to the last.
    pub fn focus_previous_tab(&mut self)
        ensures
            final(self).focused_pane == FocusedPane::at(
                old(self).focused_pane.ordinal() + pane_count() - 1,
            ),
            final(self).navigation == old(self).navigation,
    {
        self.focused_pane = self.focused_pane.previous();
    }
}

/// The application.
#[derive(Debug)]
pub struct App {
    /// Whether the application goes on running.
    pub running: bool,
    pub state: State,
}

impl App {
    /// A running application that starts at `root`, whose children are
    /// `subkeys`.
    pub fn new(root: Node, subkeys: Vec<Node>) -> (app: App)
        ensures
            app.running,
            app.state.navigation.wf(),
            app.state.navigation@ == initial(root, CACHE_CAPACITY as nat).select_node(root, subkeys@),
            app.state.focused_pane == FocusedPane::KeySelector,
    {
        App { running: true, state: State::new(root, subkeys) }
    }

    /// A tick of the terminal changes nothing.
    pub fn tick(&self) {
    }

    /// Stops the application.
    pub fn quit(&mut self)
        ensures
            !final(self).running,
            final(self).state == old(self).state,
    {
        self.running = false;
    }
}

} // verus!
