use tupli::tabs::{index_after_move, is_doomed, tab_after_close, tab_after_closing};

#[test]
fn tabs_closing_a_tab_to_the_left_shifts_the_active_one_down() {
    assert_eq!(tab_after_closing(2, &[0], 3), Some(2));
}

#[test]
fn tabs_closing_a_tab_to_the_right_leaves_the_active_one_alone() {
    assert_eq!(tab_after_closing(0, &[2], 3), Some(0));
}

#[test]
fn tabs_closing_the_active_last_tab_falls_back_onto_its_neighbour() {
    assert_eq!(tab_after_closing(2, &[2], 3), Some(1));
}

#[test]
fn closing_the_active_tab_in_the_middle_takes_the_one_to_its_right() {
    assert_eq!(tab_after_closing(1, &[1], 3), Some(2));
}

#[test]
fn closing_every_other_tab_leaves_the_one_that_was_showing() {
    assert_eq!(tab_after_closing(3, &[0, 1, 2, 4], 5), Some(3));
}

#[test]
fn closing_a_run_that_swallows_the_active_tab_lands_past_it() {
    assert_eq!(tab_after_closing(1, &[0, 1, 2], 5), Some(3));
}

#[test]
fn closing_a_run_at_the_end_falls_back_to_the_left() {
    assert_eq!(tab_after_closing(3, &[2, 3, 4], 5), Some(1));
}

#[test]
fn closing_the_lot_leaves_nothing_to_show() {
    assert_eq!(tab_after_closing(0, &[0, 1], 2), None);
}

#[test]
fn pinning_a_tab_carries_the_active_one_with_it() {
    assert_eq!(index_after_move(2, 2, 0), 0);
}

#[test]
fn a_tab_moved_past_the_active_one_shifts_it_a_place() {
    assert_eq!(index_after_move(1, 0, 3), 0);
    assert_eq!(index_after_move(1, 3, 0), 2);
}

#[test]
fn a_move_that_misses_the_active_tab_leaves_it_where_it_was() {
    assert_eq!(index_after_move(0, 2, 3), 0);
    assert_eq!(index_after_move(3, 0, 2), 3);
}

#[test]
fn workspace_closing_a_tab_to_the_left_shifts_the_active_one_down() {
    assert_eq!(tab_after_close(2, 0, 2), 1);
}

#[test]
fn workspace_closing_a_tab_to_the_right_leaves_the_active_one_alone() {
    assert_eq!(tab_after_close(0, 2, 2), 0);
}

#[test]
fn workspace_closing_the_active_last_tab_falls_back_onto_its_neighbour() {
    assert_eq!(tab_after_close(2, 2, 2), 1);
}

#[test]
fn closing_the_active_tab_in_the_middle_keeps_the_position() {
    assert_eq!(tab_after_close(1, 1, 2), 1);
}

#[test]
fn an_empty_strip_has_nothing_to_show() {
    assert_eq!(tab_after_closing(0, &[], 0), None);
    assert_eq!(tab_after_close(0, 0, 0), 0);
}

#[test]
fn a_tab_on_no_list_is_not_doomed() {
    assert!(!is_doomed(&[], 0));
    assert!(is_doomed(&[4, 2], 2));
    assert!(!is_doomed(&[4, 2], 3));
}

/// Whatever is moved where, the tab that showed is the tab that shows.
#[test]
fn every_move_of_a_short_strip_carries_the_showing_tab() {
    let len: usize = 5;
    for active in 0..len {
        for from in 0..len {
            for to in 0..len {
                let mut strip: Vec<usize> = (0..len).collect();
                let moved = strip.remove(from);
                strip.insert(to, moved);
                assert_eq!(strip[index_after_move(active, from, to)], active);
            }
        }
    }
}
