use hiview::navigation::Navigation;
use hiview::node::{Node, Value, ValueContent};
use hiview::selection::SelectionState;
use hiview::sort::KeySort;

fn values(count: usize) -> Vec<Value> {
    let mut out = Vec::new();
    for i in 0..count {
        out.push(Value {
            name: format!("value{}", i),
            data_type: String::from("REG_DWORD"),
            content: ValueContent::U32(i as u32),
        });
    }
    out
}

fn node(identity: usize, name: &str, subkey_count: u32, last_written: u64, value_count: usize) -> Node {
    Node {
        identity,
        name: String::from(name),
        path: format!("ROOT\\{}", name),
        subkey_count,
        last_written,
        values: values(value_count),
    }
}

fn root() -> Node {
    node(1, "ROOT", 3, 0, 0)
}

fn abc() -> Vec<Node> {
    vec![node(10, "A", 0, 30, 2), node(20, "B", 1, 10, 5), node(30, "C", 2, 20, 0)]
}

fn identities(nav: &Navigation) -> Vec<usize> {
    nav.current_subkeys().iter().map(|n| n.identity).collect()
}

#[test]
fn new_selects_first_child_and_its_first_value() {
    let nav = Navigation::new(root(), abc());
    assert_eq!(nav.current_key().identity, 1);
    assert_eq!(identities(&nav), vec![10, 20, 30]);
    assert_eq!(nav.selected_subkey_index(), Some(0));
    assert_eq!(nav.selected_subkey().map(|n| n.identity), Some(10));
    assert_eq!(nav.value_count(), 2);
    assert_eq!(nav.selected_value_index(), Some(0));
    assert_eq!(nav.selected_value().map(|v| v.name.clone()), Some(String::from("value0")));
    assert_eq!(nav.key_sort_method(), KeySort::SubkeyCount);
}

#[test]
fn new_without_children_selects_nothing() {
    let nav = Navigation::new(root(), Vec::new());
    assert_eq!(nav.selected_subkey_index(), None);
    assert!(nav.selected_subkey().is_none());
    assert_eq!(nav.value_count(), 0);
    assert_eq!(nav.selected_value_index(), None);
    assert!(nav.selected_value().is_none());
}

#[test]
fn new_puts_children_in_default_order() {
    let children = vec![node(30, "C", 7, 0, 0), node(10, "A", 2, 0, 0), node(20, "B", 5, 0, 0)];
    let nav = Navigation::new(root(), children);
    assert_eq!(identities(&nav), vec![10, 20, 30]);
}

#[test]
fn round_trip_restores_selected_child() {
    let mut nav = Navigation::new(root(), abc());
    nav.change_subkey_by(1);
    assert_eq!(nav.selected_subkey_index(), Some(1));
    assert_eq!(nav.selected_subkey().map(|n| n.identity), Some(20));
    nav.enter_key(Vec::new());
    assert_eq!(nav.current_key().identity, 20);
    assert_eq!(nav.selected_subkey_index(), None);
    nav.leave_key(Some((root(), abc())));
    assert_eq!(nav.current_key().identity, 1);
    assert_eq!(nav.selected_subkey_index(), Some(1));
    assert_eq!(nav.selected_subkey().map(|n| n.identity), Some(20));
}

#[test]
fn round_trip_through_a_child_with_children() {
    let mut nav = Navigation::new(root(), abc());
    nav.change_subkey_by(2);
    nav.enter_key(vec![node(31, "C1", 0, 0, 0), node(32, "C2", 0, 0, 1), node(33, "C3", 0, 0, 0)]);
    assert_eq!(nav.current_key().identity, 30);
    assert_eq!(nav.selected_subkey_index(), Some(0));
    nav.change_subkey_by(1);
    nav.leave_key(Some((root(), abc())));
    assert_eq!(nav.selected_subkey_index(), Some(2));
    nav.enter_key(vec![node(31, "C1", 0, 0, 0), node(32, "C2", 0, 0, 1), node(33, "C3", 0, 0, 0)]);
    assert_eq!(nav.selected_subkey_index(), Some(1));
    assert_eq!(nav.selected_subkey().map(|n| n.identity), Some(32));
}

#[test]
fn default_selection_is_not_remembered() {
    let mut nav = Navigation::new(root(), abc());
    nav.enter_key(Vec::new());
    nav.leave_key(Some((root(), abc())));
    let shown = format!("{:?}", nav);
    assert!(shown.contains("len: 0"));
    assert!(!shown.contains("len: 1"));
    assert_eq!(nav.selected_subkey_index(), Some(0));
}

#[test]
fn non_default_selection_is_remembered() {
    let mut nav = Navigation::new(root(), abc());
    nav.change_subkey_by(1);
    nav.enter_key(Vec::new());
    let shown = format!("{:?}", nav);
    assert!(shown.contains("len: 1"));
}

#[test]
fn enter_key_replaces_children_and_values() {
    let mut nav = Navigation::new(root(), abc());
    nav.change_subkey_by(1);
    nav.enter_key(vec![node(21, "B1", 0, 0, 3)]);
    assert_eq!(nav.current_key().identity, 20);
    assert_eq!(identities(&nav), vec![21]);
    assert_eq!(nav.value_count(), 3);
    assert_eq!(nav.selected_value_index(), Some(0));
}

#[test]
fn enter_key_without_selection_does_nothing() {
    let mut nav = Navigation::new(root(), Vec::new());
    let before = format!("{:?}", nav);
    nav.enter_key(vec![node(99, "X", 0, 0, 0)]);
    assert_eq!(format!("{:?}", nav), before);
    assert_eq!(nav.current_key().identity, 1);
}

#[test]
fn leave_key_at_root_changes_nothing() {
    let mut nav = Navigation::new(root(), abc());
    nav.change_subkey_by(1);
    nav.change_value_by(3);
    let before = format!("{:?}", nav);
    nav.leave_key(None);
    assert_eq!(format!("{:?}", nav), before);
    assert_eq!(nav.selected_subkey_index(), Some(1));
    assert_eq!(nav.selected_value_index(), Some(3));
}

#[test]
fn child_moves_stop_at_both_ends() {
    let mut nav = Navigation::new(root(), abc());
    nav.change_subkey_by(-1);
    assert_eq!(nav.selected_subkey_index(), Some(0));
    nav.change_subkey_by(10);
    assert_eq!(nav.selected_subkey_index(), Some(2));
    nav.change_subkey_by(1);
    assert_eq!(nav.selected_subkey_index(), Some(2));
    nav.change_subkey_by(-10);
    assert_eq!(nav.selected_subkey_index(), Some(0));
    nav.change_subkey_by(isize::MAX);
    assert_eq!(nav.selected_subkey_index(), Some(2));
    nav.change_subkey_by(isize::MIN);
    assert_eq!(nav.selected_subkey_index(), Some(0));
}

#[test]
fn child_move_without_children_does_nothing() {
    let mut nav = Navigation::new(root(), Vec::new());
    let before = format!("{:?}", nav);
    nav.change_subkey_by(1);
    assert_eq!(format!("{:?}", nav), before);
    assert_eq!(nav.selected_subkey_index(), None);
}

#[test]
fn child_move_loads_values_of_the_child_reached() {
    let mut nav = Navigation::new(root(), abc());
    assert_eq!(nav.value_count(), 2);
    nav.change_subkey_by(1);
    assert_eq!(nav.value_count(), 5);
    assert_eq!(nav.selected_value_index(), Some(0));
    nav.change_subkey_by(1);
    assert_eq!(nav.value_count(), 0);
    assert_eq!(nav.selected_value_index(), None);
}

#[test]
fn value_moves_clamp_at_boundaries() {
    let mut nav = Navigation::new(root(), abc());
    nav.change_subkey_by(1);
    nav.change_value_by(2);
    assert_eq!(nav.selected_value_index(), Some(2));
    nav.change_value_by(-100);
    assert_eq!(nav.selected_value_index(), Some(0));
    nav.change_value_by(2);
    nav.change_value_by(100);
    assert_eq!(nav.selected_value_index(), Some(4));
    assert_eq!(nav.selected_value().map(|v| v.name.clone()), Some(String::from("value4")));
}

#[test]
fn value_move_without_values_does_nothing() {
    let mut nav = Navigation::new(root(), abc());
    nav.change_subkey_by(2);
    let before = format!("{:?}", nav);
    nav.change_value_by(1);
    assert_eq!(format!("{:?}", nav), before);
    assert_eq!(nav.selected_value_index(), None);
}

#[test]
fn value_move_keeps_children_and_child_selection() {
    let mut nav = Navigation::new(root(), abc());
    nav.change_subkey_by(1);
    nav.change_value_by(1);
    assert_eq!(identities(&nav), vec![10, 20, 30]);
    assert_eq!(nav.selected_subkey_index(), Some(1));
    assert_eq!(nav.value_count(), 5);
}

#[test]
fn value_selection_is_restored_per_child() {
    let mut nav = Navigation::new(root(), abc());
    nav.change_subkey_by(1);
    nav.change_value_by(3);
    nav.change_subkey_by(-1);
    assert_eq!(nav.selected_value_index(), Some(0));
    nav.change_subkey_by(1);
    assert_eq!(nav.selected_value_index(), Some(3));
}

#[test]
fn moves_keep_selection_in_range() {
    let mut nav = Navigation::new(root(), abc());
    let deltas: [isize; 9] = [5, -2, 1, 1, -7, 3, -1, 100, -100];
    for d in deltas {
        nav.change_subkey_by(d);
        let len = nav.current_subkeys().len();
        assert!(nav.selected_subkey_index().map_or(len == 0, |i| i < len));
        nav.change_value_by(d);
        let count = nav.value_count();
        assert!(nav.selected_value_index().map_or(count == 0, |i| i < count));
    }
}

#[test]
fn sort_cycle_returns_to_start() {
    let mut nav = Navigation::new(root(), abc());
    assert_eq!(nav.key_sort_method(), KeySort::SubkeyCount);
    nav.change_subkey_sort();
    assert_eq!(nav.key_sort_method(), KeySort::KeyName);
    nav.change_subkey_sort();
    assert_eq!(nav.key_sort_method(), KeySort::LastWrite);
    assert_eq!(identities(&nav), vec![20, 30, 10]);
    nav.change_subkey_sort();
    assert_eq!(nav.key_sort_method(), KeySort::SubkeyCount);
    let mut ids = identities(&nav);
    assert_eq!(ids, vec![10, 20, 30]);
    ids.sort();
    assert_eq!(ids, vec![10, 20, 30]);
}

#[test]
fn sort_keeps_selected_child() {
    let children = vec![node(10, "zeta", 0, 0, 1), node(20, "alpha", 1, 0, 4), node(30, "mid", 2, 0, 0)];
    let mut nav = Navigation::new(root(), children);
    nav.change_subkey_by(1);
    nav.change_value_by(2);
    assert_eq!(nav.selected_subkey().map(|n| n.identity), Some(20));
    nav.change_subkey_sort();
    assert_eq!(nav.key_sort_method(), KeySort::KeyName);
    assert_eq!(identities(&nav), vec![20, 30, 10]);
    assert_eq!(nav.selected_subkey_index(), Some(0));
    assert_eq!(nav.selected_subkey().map(|n| n.identity), Some(20));
    assert_eq!(nav.value_count(), 4);
    assert_eq!(nav.selected_value_index(), Some(2));
}

#[test]
fn sort_subkeys_by_last_write() {
    let mut nav = Navigation::new(root(), abc());
    nav.change_subkey_by(2);
    nav.sort_subkeys(KeySort::LastWrite);
    assert_eq!(nav.key_sort_method(), KeySort::LastWrite);
    assert_eq!(identities(&nav), vec![20, 30, 10]);
    assert_eq!(nav.selected_subkey_index(), Some(1));
}

#[test]
fn sort_is_stable_for_ties() {
    let children = vec![
        node(1, "d", 5, 0, 0),
        node(2, "c", 1, 0, 0),
        node(3, "b", 5, 0, 0),
        node(4, "a", 1, 0, 0),
        node(5, "e", 5, 0, 0),
    ];
    let nav = Navigation::new(root(), children);
    assert_eq!(identities(&nav), vec![2, 4, 1, 3, 5]);
}

#[test]
fn active_sort_is_applied_on_entering() {
    let mut nav = Navigation::new(root(), abc());
    nav.change_subkey_sort();
    nav.enter_key(vec![node(11, "b", 0, 0, 0), node(12, "a", 1, 0, 0)]);
    assert_eq!(identities(&nav), vec![12, 11]);
}

#[test]
fn select_key_enters_any_node() {
    let mut nav = Navigation::new(root(), abc());
    nav.select_key(node(77, "elsewhere", 1, 0, 0), vec![node(78, "only", 0, 0, 1)]);
    assert_eq!(nav.current_key().identity, 77);
    assert_eq!(identities(&nav), vec![78]);
    assert_eq!(nav.selected_subkey_index(), Some(0));
    assert_eq!(nav.value_count(), 1);
}

#[test]
fn with_selected_key_enters_and_returns() {
    let nav = Navigation::new(root(), abc()).with_selected_key(node(20, "B", 1, 10, 5), Vec::new());
    assert_eq!(nav.current_key().identity, 20);
    assert_eq!(nav.selected_subkey_index(), None);
}

#[test]
fn select_subkey_by_identity() {
    let mut nav = Navigation::new(root(), abc());
    let wanted = node(30, "C", 2, 20, 0);
    nav.select_subkey(Some(&wanted));
    assert_eq!(nav.selected_subkey_index(), Some(2));
    assert_eq!(nav.value_count(), 0);
    let wanted = node(20, "B", 1, 10, 5);
    nav.select_subkey(Some(&wanted));
    assert_eq!(nav.selected_subkey_index(), Some(1));
    assert_eq!(nav.value_count(), 5);
    assert_eq!(nav.selected_value_index(), Some(0));
}

#[test]
fn select_subkey_none_clears_values() {
    let mut nav = Navigation::new(root(), abc());
    nav.select_subkey(None);
    assert_eq!(nav.selected_subkey_index(), None);
    assert_eq!(nav.value_count(), 0);
    assert_eq!(nav.selected_value_index(), None);
    assert!(nav.selected_value().is_none());
}

#[test]
fn select_subkey_unknown_selects_nothing() {
    let mut nav = Navigation::new(root(), abc());
    let stranger = node(999, "nobody", 0, 0, 1);
    nav.select_subkey(Some(&stranger));
    assert_eq!(nav.selected_subkey_index(), None);
    assert_eq!(nav.value_count(), 0);
}

#[test]
fn select_subkey_saves_previous_value_selection() {
    let mut nav = Navigation::new(root(), abc());
    nav.change_subkey_by(1);
    nav.change_value_by(4);
    nav.select_subkey(None);
    let wanted = node(20, "B", 1, 10, 5);
    nav.select_subkey(Some(&wanted));
    assert_eq!(nav.selected_value_index(), Some(4));
}

#[test]
fn scroll_offsets_are_kept_and_restored() {
    let mut nav = Navigation::new(root(), abc());
    nav.change_subkey_by(1);
    nav.set_key_scroll_offset(1);
    nav.set_value_scroll_offset(2);
    assert_eq!(
        nav.table_states().key_selector_state,
        SelectionState { selected_index: Some(1), scroll_offset: 1 }
    );
    assert_eq!(nav.table_states().value_selector_state.scroll_offset, 2);
    nav.enter_key(Vec::new());
    assert_eq!(nav.table_states().key_selector_state, SelectionState { selected_index: None, scroll_offset: 0 });
    nav.leave_key(Some((root(), abc())));
    assert_eq!(
        nav.table_states().key_selector_state,
        SelectionState { selected_index: Some(1), scroll_offset: 1 }
    );
}

#[test]
fn current_path_follows_current_key() {
    let mut nav = Navigation::new(root(), abc());
    assert_eq!(nav.current_path(), "ROOT\\ROOT");
    nav.change_subkey_by(1);
    nav.enter_key(Vec::new());
    assert_eq!(nav.current_path(), "ROOT\\B");
}

#[test]
fn value_at_reads_rows_of_selected_child() {
    let nav = Navigation::new(root(), abc());
    assert_eq!(nav.value_at(1).map(|v| v.name.clone()), Some(String::from("value1")));
    assert!(nav.value_at(2).is_none());
}
