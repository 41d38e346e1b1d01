use hiview::app::{App, State};
use hiview::focus::FocusedPane;
use hiview::handler::{
    decode, handle_key_events, handle_key_selector_key_events, handle_value_inspector_key_events,
    handle_value_selector_key_events, run_command, Command, KeyCode, KeyEvent, KeyModifiers, Request, CONTROL, SHIFT,
};
use hiview::node::{Node, Value, ValueContent};

fn node(identity: usize, subkey_count: u32, value_count: usize) -> Node {
    let mut values = Vec::new();
    for i in 0..value_count {
        values.push(Value { name: format!("v{}", i), data_type: String::from("REG_SZ"), content: ValueContent::Text(String::from("x")) });
    }
    Node { identity, name: format!("key{}", identity), path: format!("ROOT\\key{}", identity), subkey_count, last_written: 0, values }
}

fn app() -> App {
    let mut children = Vec::new();
    for i in 0..25 {
        children.push(node(100 + i, i as u32, 15));
    }
    App::new(node(1, 25, 0), children)
}

fn key(c: char) -> KeyEvent {
    KeyEvent { code: KeyCode::Char(c), modifiers: KeyModifiers { bits: 0 } }
}

fn ctrl(c: char) -> KeyEvent {
    KeyEvent { code: KeyCode::Char(c), modifiers: KeyModifiers { bits: CONTROL } }
}

#[test]
fn app_starts_running_with_focus_on_keys() {
    let a = app();
    assert!(a.running);
    assert_eq!(a.state.focused_pane, FocusedPane::KeySelector);
    assert_eq!(a.state.navigation.selected_subkey_index(), Some(0));
    a.tick();
    assert!(a.running);
}

#[test]
fn state_new_and_focus_tabs() {
    let mut s = State::new(node(1, 0, 0), Vec::new());
    assert_eq!(s.focused_pane, FocusedPane::KeySelector);
    s.focus_next_tab();
    assert_eq!(s.focused_pane, FocusedPane::ValueSelector);
    s.focus_next_tab();
    s.focus_next_tab();
    assert_eq!(s.focused_pane, FocusedPane::KeySelector);
    s.focus_previous_tab();
    assert_eq!(s.focused_pane, FocusedPane::ValueInspector);
}

#[test]
fn quit_stops_the_app() {
    let mut a = app();
    a.quit();
    assert!(!a.running);
}

#[test]
fn quit_keys() {
    for k in [key('q'), KeyEvent { code: KeyCode::Esc, modifiers: KeyModifiers { bits: 0 } }, ctrl('c'), ctrl('C')] {
        let mut a = app();
        assert_eq!(handle_key_events(k, &mut a), Request::Nothing);
        assert!(!a.running);
    }
}

#[test]
fn plain_c_does_nothing() {
    let mut a = app();
    assert_eq!(handle_key_events(key('c'), &mut a), Request::Nothing);
    assert!(a.running);
    assert_eq!(handle_key_events(KeyEvent { code: KeyCode::Char('c'), modifiers: KeyModifiers { bits: CONTROL | SHIFT } }, &mut a), Request::Nothing);
    assert!(a.running);
}

#[test]
fn tab_moves_focus() {
    let mut a = app();
    let tab = KeyEvent { code: KeyCode::Tab, modifiers: KeyModifiers { bits: 0 } };
    let back = KeyEvent { code: KeyCode::Tab, modifiers: KeyModifiers { bits: SHIFT } };
    handle_key_events(tab, &mut a);
    assert_eq!(a.state.focused_pane, FocusedPane::ValueSelector);
    handle_key_events(tab, &mut a);
    assert_eq!(a.state.focused_pane, FocusedPane::ValueInspector);
    handle_key_events(tab, &mut a);
    assert_eq!(a.state.focused_pane, FocusedPane::KeySelector);
    handle_key_events(back, &mut a);
    assert_eq!(a.state.focused_pane, FocusedPane::ValueInspector);
    handle_key_events(back, &mut a);
    assert_eq!(a.state.focused_pane, FocusedPane::ValueSelector);
}

#[test]
fn key_selector_moves_children() {
    let mut a = app();
    assert_eq!(handle_key_events(key('j'), &mut a), Request::Nothing);
    assert_eq!(a.state.navigation.selected_subkey_index(), Some(1));
    handle_key_events(ctrl('j'), &mut a);
    assert_eq!(a.state.navigation.selected_subkey_index(), Some(11));
    handle_key_events(key('k'), &mut a);
    assert_eq!(a.state.navigation.selected_subkey_index(), Some(10));
    handle_key_events(ctrl('k'), &mut a);
    assert_eq!(a.state.navigation.selected_subkey_index(), Some(0));
    handle_key_events(key('k'), &mut a);
    assert_eq!(a.state.navigation.selected_subkey_index(), Some(0));
    assert_eq!(a.state.navigation.selected_value_index(), Some(0));
}

#[test]
fn key_selector_enter_and_leave_ask_for_the_tree() {
    let mut a = app();
    assert_eq!(handle_key_events(key('l'), &mut a), Request::SubkeysOfSelected);
    assert_eq!(handle_key_events(key('h'), &mut a), Request::Parent);
    assert_eq!(a.state.navigation.current_key().identity, 1);
    let mut empty = App::new(node(1, 0, 0), Vec::new());
    assert_eq!(handle_key_events(key('l'), &mut empty), Request::Nothing);
    assert_eq!(handle_key_events(key('h'), &mut empty), Request::Parent);
}

#[test]
fn value_selector_moves_values() {
    let mut a = app();
    a.state.focus_next_tab();
    assert_eq!(handle_key_events(key('j'), &mut a), Request::Nothing);
    assert_eq!(a.state.navigation.selected_value_index(), Some(1));
    handle_key_events(ctrl('j'), &mut a);
    assert_eq!(a.state.navigation.selected_value_index(), Some(11));
    handle_key_events(ctrl('j'), &mut a);
    assert_eq!(a.state.navigation.selected_value_index(), Some(14));
    handle_key_events(key('k'), &mut a);
    assert_eq!(a.state.navigation.selected_value_index(), Some(13));
    handle_key_events(ctrl('k'), &mut a);
    assert_eq!(a.state.navigation.selected_value_index(), Some(3));
    assert_eq!(a.state.navigation.selected_subkey_index(), Some(0));
    assert_eq!(handle_key_events(key('l'), &mut a), Request::Nothing);
    assert_eq!(handle_key_events(key('h'), &mut a), Request::Nothing);
}

#[test]
fn value_inspector_takes_no_keys() {
    let mut a = app();
    a.state.focus_previous_tab();
    for k in [key('j'), key('k'), key('l'), key('h'), ctrl('j')] {
        assert_eq!(handle_key_events(k, &mut a), Request::Nothing);
    }
    assert_eq!(a.state.navigation.selected_subkey_index(), Some(0));
    assert_eq!(a.state.navigation.selected_value_index(), Some(0));
    assert_eq!(handle_value_inspector_key_events(key('j'), &mut a), Request::Nothing);
    assert!(a.running);
}

#[test]
fn pane_handlers_ignore_focus() {
    let mut a = app();
    assert_eq!(handle_value_selector_key_events(key('j'), &mut a), Request::Nothing);
    assert_eq!(a.state.navigation.selected_value_index(), Some(1));
    assert_eq!(handle_key_selector_key_events(key('j'), &mut a), Request::Nothing);
    assert_eq!(a.state.navigation.selected_subkey_index(), Some(1));
    assert_eq!(handle_key_selector_key_events(key('q'), &mut a), Request::Nothing);
    assert!(a.running);
}

#[test]
fn other_keys_do_nothing() {
    let mut a = app();
    let before = format!("{:?}", a);
    for k in [key('x'), key('J'), KeyEvent { code: KeyCode::Other, modifiers: KeyModifiers { bits: CONTROL } }] {
        assert_eq!(handle_key_events(k, &mut a), Request::Nothing);
    }
    assert_eq!(format!("{:?}", a), before);
}

#[test]
fn decode_gives_commands() {
    assert_eq!(decode(key('j'), FocusedPane::KeySelector), Command::MoveChild(1));
    assert_eq!(decode(ctrl('k'), FocusedPane::KeySelector), Command::MoveChild(-10));
    assert_eq!(decode(ctrl('j'), FocusedPane::ValueSelector), Command::MoveValue(10));
    assert_eq!(decode(key('k'), FocusedPane::ValueSelector), Command::MoveValue(-1));
    assert_eq!(decode(key('l'), FocusedPane::KeySelector), Command::EnterChild);
    assert_eq!(decode(key('h'), FocusedPane::KeySelector), Command::LeaveToParent);
    assert_eq!(decode(key('j'), FocusedPane::ValueInspector), Command::Nothing);
    assert_eq!(decode(key('q'), FocusedPane::ValueInspector), Command::Quit);
}

#[test]
fn run_command_cycles_sort() {
    let mut a = app();
    assert_eq!(run_command(Command::CycleSort, &mut a), Request::Nothing);
    assert_eq!(a.state.navigation.key_sort_method(), hiview::sort::KeySort::KeyName);
    assert_eq!(a.state.navigation.selected_subkey().map(|n| n.identity), Some(100));
}

#[test]
fn run_command_moves() {
    let mut a = app();
    assert_eq!(run_command(Command::MoveChild(3), &mut a), Request::Nothing);
    assert_eq!(a.state.navigation.selected_subkey_index(), Some(3));
    assert_eq!(run_command(Command::MoveValue(-4), &mut a), Request::Nothing);
    assert_eq!(a.state.navigation.selected_value_index(), Some(0));
    assert_eq!(run_command(Command::Nothing, &mut a), Request::Nothing);
}
