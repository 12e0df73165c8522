use tui_widget_list::{ListState, ScrollAnchor};

fn state_of(item_count: usize, circular: bool) -> ListState {
    let mut state = ListState::default().circular(circular);
    state.set_item_count(item_count);
    state
}

#[test]
fn default_state_selects_nothing_and_is_circular() {
    let state = ListState::default();
    assert_eq!(state.selected(), None);
    assert_eq!(state.anchor(), ScrollAnchor::origin());
    assert_eq!(state.item_count(), 0);
    assert!(state.is_circular());
    assert_eq!(state, ListState::new());
}

#[test]
fn next_from_nothing_selects_the_first_item() {
    let mut state = state_of(3, true);
    state.next();
    assert_eq!(state.selected(), Some(0));
    let mut state = state_of(3, false);
    state.next();
    assert_eq!(state.selected(), Some(0));
}

#[test]
fn previous_from_nothing_selects_the_first_item() {
    let mut state = state_of(3, true);
    state.previous();
    assert_eq!(state.selected(), Some(0));
    let mut state = state_of(3, false);
    state.previous();
    assert_eq!(state.selected(), Some(0));
}

#[test]
fn next_steps_forward() {
    let mut state = state_of(3, true);
    state.select(Some(0));
    state.next();
    assert_eq!(state.selected(), Some(1));
    state.next();
    assert_eq!(state.selected(), Some(2));
}

#[test]
fn next_wraps_to_the_first_item_when_circular() {
    let mut state = state_of(3, true);
    state.select(Some(2));
    state.next();
    assert_eq!(state.selected(), Some(0));
}

#[test]
fn next_stays_on_the_last_item_when_not_circular() {
    let mut state = state_of(3, false);
    state.select(Some(2));
    state.next();
    assert_eq!(state.selected(), Some(2));
}

#[test]
fn previous_steps_backward() {
    let mut state = state_of(3, true);
    state.select(Some(2));
    state.previous();
    assert_eq!(state.selected(), Some(1));
    state.previous();
    assert_eq!(state.selected(), Some(0));
}

#[test]
fn previous_wraps_to_the_last_item_when_circular() {
    let mut state = state_of(3, true);
    state.select(Some(0));
    state.previous();
    assert_eq!(state.selected(), Some(2));
}

#[test]
fn previous_stays_on_the_first_item_when_not_circular() {
    let mut state = state_of(3, false);
    state.select(Some(0));
    state.previous();
    assert_eq!(state.selected(), Some(0));
}

#[test]
fn select_clamps_into_the_list() {
    let mut state = state_of(5, true);
    state.select(Some(3));
    assert_eq!(state.selected(), Some(3));
    state.select(Some(5));
    assert_eq!(state.selected(), Some(4));
    state.select(Some(usize::MAX));
    assert_eq!(state.selected(), Some(4));
    state.select(None);
    assert_eq!(state.selected(), None);
}

#[test]
fn empty_list_has_no_selection() {
    let mut state = state_of(0, true);
    state.select(Some(0));
    assert_eq!(state.selected(), None);
    state.next();
    assert_eq!(state.selected(), None);
    state.previous();
    assert_eq!(state.selected(), None);
    let mut state = state_of(0, false);
    state.next();
    assert_eq!(state.selected(), None);
    state.previous();
    assert_eq!(state.selected(), None);
}

#[test]
fn shrinking_the_list_brings_the_selection_along() {
    let mut state = state_of(10, true);
    state.select(Some(7));
    state.set_item_count(8);
    assert_eq!(state.selected(), Some(7));
    state.set_item_count(4);
    assert_eq!(state.selected(), Some(3));
    assert_eq!(state.item_count(), 4);
    state.set_item_count(0);
    assert_eq!(state.selected(), None);
    state.set_item_count(4);
    assert_eq!(state.selected(), None);
}

#[test]
fn navigation_leaves_the_anchor_alone() {
    let mut state = state_of(10, true);
    state.set_anchor(ScrollAnchor { index: 4, offset: 2 });
    state.next();
    state.next();
    state.previous();
    state.select(Some(9));
    state.set_item_count(3);
    state.set_circular(false);
    assert_eq!(state.anchor(), ScrollAnchor { index: 4, offset: 2 });
    assert_eq!(state.selected(), Some(2));
    assert!(!state.is_circular());
}

#[test]
fn as_many_steps_as_items_go_round_when_circular() {
    for item_count in 1..8usize {
        for start in 0..item_count {
            let mut state = state_of(item_count, true);
            state.select(Some(start));
            for _ in 0..item_count {
                state.next();
            }
            assert_eq!(state.selected(), Some(start));
            for _ in 0..item_count {
                state.previous();
            }
            assert_eq!(state.selected(), Some(start));
        }
    }
}

#[test]
fn as_many_steps_as_items_end_on_the_last_item_when_not_circular() {
    for item_count in 1..8usize {
        for start in 0..item_count {
            let mut state = state_of(item_count, false);
            state.select(Some(start));
            for _ in 0..item_count {
                state.next();
            }
            assert_eq!(state.selected(), Some(item_count - 1));
        }
        let mut state = state_of(item_count, false);
        for _ in 0..item_count {
            state.next();
        }
        assert_eq!(state.selected(), Some(item_count - 1));
    }
}

#[test]
fn steps_from_nothing_do_not_come_back_to_nothing() {
    let mut state = state_of(3, true);
    for _ in 0..3 {
        state.next();
    }
    assert_eq!(state.selected(), Some(2));
}
