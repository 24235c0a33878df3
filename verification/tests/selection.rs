use sm_connect::selection::{clamp, first, next, previous};

#[test]
fn first_is_the_top_row_or_nothing() {
    assert_eq!(first(0), None);
    assert_eq!(first(1), Some(0));
    assert_eq!(first(5), Some(0));
}

#[test]
fn next_wraps_from_the_last_row_to_the_first() {
    assert_eq!(next(Some(0), 3), Some(1));
    assert_eq!(next(Some(1), 3), Some(2));
    assert_eq!(next(Some(2), 3), Some(0));
    assert_eq!(next(Some(0), 1), Some(0));
    assert_eq!(next(None, 3), Some(0));
}

#[test]
fn previous_wraps_from_the_first_row_to_the_last() {
    assert_eq!(previous(Some(2), 3), Some(1));
    assert_eq!(previous(Some(1), 3), Some(0));
    assert_eq!(previous(Some(0), 3), Some(2));
    assert_eq!(previous(Some(0), 1), Some(0));
    assert_eq!(previous(None, 3), Some(0));
}

#[test]
fn navigation_on_an_empty_list_selects_nothing() {
    assert_eq!(next(None, 0), None);
    assert_eq!(previous(None, 0), None);
    assert_eq!(next(Some(0), 0), None);
    assert_eq!(previous(Some(4), 0), None);
    assert_eq!(clamp(Some(2), 0), None);
}

#[test]
fn a_cursor_outside_the_list_is_brought_back() {
    assert_eq!(next(Some(7), 3), Some(0));
    assert_eq!(previous(Some(7), 3), Some(2));
    assert_eq!(clamp(Some(7), 3), Some(2));
    assert_eq!(clamp(Some(3), 3), Some(2));
    assert_eq!(clamp(Some(2), 3), Some(2));
    assert_eq!(clamp(Some(0), 3), Some(0));
    assert_eq!(clamp(None, 3), Some(0));
}

#[test]
fn next_and_previous_undo_each_other() {
    for len in 1..6usize {
        for i in 0..len {
            assert_eq!(previous(next(Some(i), len), len), Some(i));
            assert_eq!(next(previous(Some(i), len), len), Some(i));
        }
    }
}
