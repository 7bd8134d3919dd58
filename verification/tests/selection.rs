use std::collections::BTreeSet;

use awebpinator::selection::{
    apply_selection, clear_selection, extend_selection_by_step, extend_selection_to, invert_selection,
    select_all, SelectionMode,
};

fn set(ids: &[u64]) -> BTreeSet<u64> {
    ids.iter().copied().collect()
}

#[test]
fn plain_click_selects_one_frame() {
    let state = apply_selection(&[1, 2, 3], &set(&[1, 2]), Some(1), 3, SelectionMode::Plain);
    assert_eq!(state.selection, set(&[3]));
    assert_eq!(state.anchor_id, Some(3));
}

#[test]
fn ctrl_click_adds_unselected_frame() {
    let state = apply_selection(&[1, 2, 3], &set(&[1]), Some(1), 3, SelectionMode::Ctrl);
    assert_eq!(state.selection, set(&[1, 3]));
    assert_eq!(state.anchor_id, Some(3));
}

#[test]
fn ctrl_click_removes_selected_frame() {
    let state = apply_selection(&[1, 2, 3], &set(&[1, 3]), Some(1), 3, SelectionMode::Ctrl);
    assert_eq!(state.selection, set(&[1]));
    assert_eq!(state.anchor_id, Some(3));
}

#[test]
fn shift_click_adds_inclusive_range() {
    let state = apply_selection(
        &[1, 2, 3, 4, 5],
        &set(&[1]),
        Some(1),
        4,
        SelectionMode::Shift,
    );
    assert_eq!(state.selection, set(&[1, 2, 3, 4]));
    assert_eq!(state.anchor_id, Some(1));
}

#[test]
fn ctrl_shift_click_is_also_additive_range() {
    let state = apply_selection(
        &[1, 2, 3, 4, 5],
        &set(&[1, 5]),
        Some(1),
        4,
        SelectionMode::CtrlShift,
    );
    assert_eq!(state.selection, set(&[1, 2, 3, 4, 5]));
    assert_eq!(state.anchor_id, Some(1));
}

#[test]
fn shift_without_anchor_falls_back_to_single_selection() {
    let state = apply_selection(&[1, 2, 3], &set(&[1]), None, 2, SelectionMode::Shift);
    assert_eq!(state.selection, set(&[2]));
    assert_eq!(state.anchor_id, Some(2));
}

#[test]
fn shift_uses_current_anchor_even_if_selection_differs() {
    let state = apply_selection(&[1, 2, 3, 4], &set(&[2]), Some(4), 1, SelectionMode::Shift);
    assert_eq!(state.selection, set(&[1, 2, 3, 4]));
    assert_eq!(state.anchor_id, Some(4));
}

#[test]
fn keyboard_range_extension_is_additive() {
    let state = extend_selection_to(&[1, 2, 3, 4, 5], &set(&[1, 5]), Some(3), 4);
    assert_eq!(state.selection, set(&[1, 3, 4, 5]));
    assert_eq!(state.anchor_id, Some(3));
}

#[test]
fn keyboard_range_extension_without_anchor_falls_back_to_single_selection() {
    let state = extend_selection_to(&[1, 2, 3], &set(&[1]), None, 2);
    assert_eq!(state.selection, set(&[2]));
    assert_eq!(state.anchor_id, Some(2));
}

#[test]
fn keyboard_step_extension_selects_first_unselected_to_the_right() {
    let state = extend_selection_by_step(&[1, 2, 3, 4, 5], &set(&[3, 4]), Some(4), 1);
    assert_eq!(state.selection, set(&[3, 4, 5]));
    assert_eq!(state.anchor_id, Some(5));
}

#[test]
fn keyboard_step_extension_selects_first_unselected_to_the_left() {
    let state = extend_selection_by_step(&[1, 2, 3, 4, 5], &set(&[3, 4, 5]), Some(5), -1);
    assert_eq!(state.selection, set(&[2, 3, 4, 5]));
    assert_eq!(state.anchor_id, Some(2));
}

#[test]
fn keyboard_step_extension_skips_already_selected_frames_in_direction() {
    let state = extend_selection_by_step(&[1, 2, 3, 4, 5], &set(&[2, 3, 5]), Some(3), 1);
    assert_eq!(state.selection, set(&[2, 3, 4, 5]));
    assert_eq!(state.anchor_id, Some(4));
}

#[test]
fn keyboard_step_extension_keeps_anchor_when_no_unselected_frame_exists() {
    let state = extend_selection_by_step(&[1, 2, 3], &set(&[1, 2, 3]), Some(3), 1);
    assert_eq!(state.selection, set(&[1, 2, 3]));
    assert_eq!(state.anchor_id, Some(3));
}

#[test]
fn select_all_keeps_existing_anchor_when_possible() {
    let state = select_all(&[1, 2, 3], Some(2));
    assert_eq!(state.selection, set(&[1, 2, 3]));
    assert_eq!(state.anchor_id, Some(2));
}

#[test]
fn select_all_uses_first_frame_when_anchor_missing() {
    let state = select_all(&[1, 2, 3], Some(9));
    assert_eq!(state.selection, set(&[1, 2, 3]));
    assert_eq!(state.anchor_id, Some(1));
}

#[test]
fn clear_selection_resets_anchor() {
    let state = clear_selection();
    assert!(state.selection.is_empty());
    assert_eq!(state.anchor_id, None);
}

#[test]
fn invert_selection_keeps_anchor_when_still_selected() {
    let state = invert_selection(&[1, 2, 3, 4], &set(&[2, 4]), Some(1));
    assert_eq!(state.selection, set(&[1, 3]));
    assert_eq!(state.anchor_id, Some(1));
}

#[test]
fn invert_selection_uses_first_selected_frame_when_anchor_drops_out() {
    let state = invert_selection(&[1, 2, 3, 4], &set(&[2, 4]), Some(2));
    assert_eq!(state.selection, set(&[1, 3]));
    assert_eq!(state.anchor_id, Some(1));
}

#[test]
fn invert_selection_of_full_selection_clears_anchor() {
    let state = invert_selection(&[1, 2, 3], &set(&[1, 2, 3]), Some(2));
    assert!(state.selection.is_empty());
    assert_eq!(state.anchor_id, None);
}
