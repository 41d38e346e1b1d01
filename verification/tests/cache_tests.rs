use hiview::cache::SelectionCache;
use hiview::selection::SelectionState;

fn at(row: usize) -> SelectionState {
    SelectionState { selected_index: Some(row), scroll_offset: 0 }
}

#[test]
fn cache_evicts_least_recently_used() {
    let mut cache = SelectionCache::new(2);
    cache.remember(1, at(5));
    cache.remember(2, at(6));
    cache.remember(3, at(7));
    assert_eq!(cache.get(1), None);
    assert_eq!(cache.get(2), Some(at(6)));
    assert_eq!(cache.get(3), Some(at(7)));
}

#[test]
fn cache_get_marks_entry_as_recently_used() {
    let mut cache = SelectionCache::new(2);
    cache.put(1, at(5));
    cache.put(2, at(6));
    assert_eq!(cache.get(1), Some(at(5)));
    cache.put(3, at(7));
    assert_eq!(cache.get(2), None);
    assert_eq!(cache.get(1), Some(at(5)));
    assert_eq!(cache.get(3), Some(at(7)));
}

#[test]
fn cache_get_of_absent_key_inserts_nothing() {
    let mut cache = SelectionCache::new(2);
    assert_eq!(cache.get(9), None);
    cache.put(1, at(1));
    cache.put(2, at(2));
    assert_eq!(cache.get(9), None);
    assert_eq!(cache.get(1), Some(at(1)));
    assert_eq!(cache.get(2), Some(at(2)));
}

#[test]
fn cache_put_replaces_state_of_present_key() {
    let mut cache = SelectionCache::new(2);
    cache.put(1, at(1));
    cache.put(2, at(2));
    cache.put(1, at(9));
    cache.put(3, at(3));
    assert_eq!(cache.get(2), None);
    assert_eq!(cache.get(1), Some(at(9)));
    assert_eq!(cache.get(3), Some(at(3)));
}

#[test]
fn cache_of_capacity_one_keeps_last_entry() {
    let mut cache = SelectionCache::new(1);
    cache.put(1, at(1));
    cache.put(2, at(2));
    assert_eq!(cache.get(1), None);
    assert_eq!(cache.get(2), Some(at(2)));
}

#[test]
fn cache_does_not_remember_default_state() {
    let mut cache = SelectionCache::new(2);
    cache.remember(1, at(0));
    cache.remember(2, SelectionState { selected_index: None, scroll_offset: 4 });
    assert_eq!(cache.get(1), None);
    assert_eq!(cache.get(2), None);
    cache.remember(3, SelectionState { selected_index: Some(2), scroll_offset: 1 });
    assert_eq!(cache.get(3), Some(SelectionState { selected_index: Some(2), scroll_offset: 1 }));
}

#[test]
fn cache_default_state_evicts_nothing() {
    let mut cache = SelectionCache::new(1);
    cache.remember(1, at(3));
    cache.remember(2, at(0));
    assert_eq!(cache.get(1), Some(at(3)));
}

#[test]
fn cache_pop_takes_entry_out() {
    let mut cache = SelectionCache::new(2);
    cache.put(2, at(1));
    assert_eq!(cache.pop(1), None);
    assert_eq!(cache.pop(2), Some(at(1)));
    assert_eq!(cache.pop(2), None);
    assert_eq!(cache.get(2), None);
}

#[test]
fn cache_pop_makes_room() {
    let mut cache = SelectionCache::new(2);
    cache.put(1, at(1));
    cache.put(2, at(2));
    assert_eq!(cache.pop(2), Some(at(2)));
    cache.put(3, at(3));
    assert_eq!(cache.get(1), Some(at(1)));
    assert_eq!(cache.get(3), Some(at(3)));
}

#[test]
fn cache_push_stores_default_states_too() {
    let mut cache = SelectionCache::new(2);
    cache.push(1, at(0));
    assert_eq!(cache.get(1), Some(at(0)));
    cache.push(2, at(2));
    cache.push(1, at(5));
    cache.push(3, at(3));
    assert_eq!(cache.get(2), None);
    assert_eq!(cache.get(1), Some(at(5)));
}
