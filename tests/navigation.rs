use diff_tool::navigation::{next_row_index, previous_row_index, DiffState};

#[test]
fn next_wraps_to_top() {
    assert_eq!(next_row_index(Some(2), 3), Some(0));
    assert_eq!(next_row_index(Some(0), 3), Some(1));
    assert_eq!(next_row_index(None, 3), Some(0));
}

#[test]
fn previous_wraps_to_bottom() {
    assert_eq!(previous_row_index(Some(0), 3), Some(2));
    assert_eq!(previous_row_index(Some(2), 3), Some(1));
    assert_eq!(previous_row_index(None, 3), Some(0));
}

#[test]
fn empty_column_selects_nothing() {
    assert_eq!(next_row_index(Some(0), 0), None);
    assert_eq!(previous_row_index(Some(0), 0), None);
    assert_eq!(next_row_index(None, 0), None);
    assert_eq!(previous_row_index(None, 0), None);
}

#[test]
fn diff_state_starts_and_resets_at_top() {
    let mut state = DiffState::new();
    assert_eq!((state.old_diff(), state.current_diff()), (Some(0), Some(0)));
    state.select(Some(4), None);
    assert_eq!((state.old_diff(), state.current_diff()), (Some(4), None));
    state.reset_row_state();
    assert_eq!((state.old_diff(), state.current_diff()), (Some(0), Some(0)));
}

#[test]
fn next_then_previous_returns() {
    for i in 0..5 {
        assert_eq!(previous_row_index(next_row_index(Some(i), 5), 5), Some(i));
        assert_eq!(next_row_index(previous_row_index(Some(i), 5), 5), Some(i));
    }
}
