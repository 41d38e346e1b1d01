use hiview::focus::FocusedPane;
use hiview::selection::{place_index, place_state, restore, settle, shift_index, SelectionState};

#[test]
fn selection_state_new_is_empty() {
    let s = SelectionState::new();
    assert_eq!(s, SelectionState { selected_index: None, scroll_offset: 0 });
    assert_eq!(s.effective(), 0);
    assert!(!s.is_non_default());
}

#[test]
fn selection_state_with_selected() {
    assert_eq!(SelectionState::with_selected(Some(3)), SelectionState { selected_index: Some(3), scroll_offset: 0 });
    assert!(SelectionState::with_selected(Some(3)).is_non_default());
    assert!(!SelectionState::with_selected(Some(0)).is_non_default());
    assert_eq!(SelectionState::with_selected(Some(3)).effective(), 3);
}

#[test]
fn select_none_scrolls_to_top() {
    let mut s = SelectionState { selected_index: Some(4), scroll_offset: 2 };
    s.select(Some(1));
    assert_eq!(s, SelectionState { selected_index: Some(1), scroll_offset: 2 });
    s.select(None);
    assert_eq!(s, SelectionState { selected_index: None, scroll_offset: 0 });
}

#[test]
fn shift_index_exact_values() {
    assert_eq!(shift_index(2, -100, 5), 0);
    assert_eq!(shift_index(2, 100, 5), 4);
    assert_eq!(shift_index(3, -1, 5), 2);
    assert_eq!(shift_index(3, -3, 5), 0);
    assert_eq!(shift_index(3, 1, 5), 4);
    assert_eq!(shift_index(3, 0, 5), 3);
    assert_eq!(shift_index(0, 10, 4), 3);
    assert_eq!(shift_index(0, -10, 4), 0);
    assert_eq!(shift_index(0, 0, 1), 0);
}

#[test]
fn shift_index_extremes() {
    assert_eq!(shift_index(0, isize::MIN, 3), 0);
    assert_eq!(shift_index(2, isize::MIN, 3), 0);
    assert_eq!(shift_index(4, isize::MAX, 10), 9);
    assert_eq!(shift_index(usize::MAX, 1, 3), 2);
    assert_eq!(shift_index(usize::MAX, -1, 3), 2);
    assert_eq!(shift_index(usize::MAX, isize::MIN, usize::MAX), usize::MAX - (1usize << (usize::BITS - 1)));
    assert_eq!(shift_index(7, -2, 3), 2);
}

#[test]
fn place_index_holds_row_within_list() {
    assert_eq!(place_index(0, 0), None);
    assert_eq!(place_index(5, 0), None);
    assert_eq!(place_index(0, 3), Some(0));
    assert_eq!(place_index(2, 3), Some(2));
    assert_eq!(place_index(3, 3), Some(2));
    assert_eq!(place_index(usize::MAX, 1), Some(0));
}

#[test]
fn settle_and_place_state() {
    let s = SelectionState { selected_index: Some(7), scroll_offset: 3 };
    assert_eq!(settle(s, 5), SelectionState { selected_index: Some(4), scroll_offset: 3 });
    assert_eq!(settle(s, 0), SelectionState { selected_index: None, scroll_offset: 0 });
    assert_eq!(place_state(s, 5), SelectionState { selected_index: Some(4), scroll_offset: 3 });
    assert_eq!(place_state(s, 0), SelectionState { selected_index: None, scroll_offset: 3 });
    assert_eq!(place_state(s, 10), s);
}

#[test]
fn restore_defaults_to_first_row() {
    assert_eq!(restore(None, 3), SelectionState { selected_index: Some(0), scroll_offset: 0 });
    assert_eq!(restore(None, 0), SelectionState { selected_index: None, scroll_offset: 0 });
    let kept = SelectionState { selected_index: Some(2), scroll_offset: 1 };
    assert_eq!(restore(Some(kept), 3), kept);
    assert_eq!(restore(Some(kept), 2), SelectionState { selected_index: Some(1), scroll_offset: 1 });
    assert_eq!(restore(Some(kept), 0), SelectionState { selected_index: None, scroll_offset: 0 });
}

#[test]
fn focus_cycles_forward_and_back() {
    assert_eq!(FocusedPane::default(), FocusedPane::KeySelector);
    assert_eq!(FocusedPane::KeySelector.next(), FocusedPane::ValueSelector);
    assert_eq!(FocusedPane::ValueSelector.next(), FocusedPane::ValueInspector);
    assert_eq!(FocusedPane::ValueInspector.next(), FocusedPane::KeySelector);
    assert_eq!(FocusedPane::KeySelector.previous(), FocusedPane::ValueInspector);
    assert_eq!(FocusedPane::ValueSelector.previous(), FocusedPane::KeySelector);
    assert_eq!(FocusedPane::ValueInspector.previous(), FocusedPane::ValueSelector);
    for pane in [FocusedPane::KeySelector, FocusedPane::ValueSelector, FocusedPane::ValueInspector] {
        assert_eq!(pane.next().previous(), pane);
        assert_eq!(pane.previous().next(), pane);
    }
}
