use std::collections::BTreeSet;

use awebpinator::export::build_effective_command;
use awebpinator::timeline::Timeline;
use awebpinator::selection::{apply_selection, extend_selection_by_step, invert_selection, SelectionMode};
use awebpinator::types::{ExportFormat, ExportProfile};
use awebpinator::ui::step_frame_id;

fn set(ids: &[u64]) -> BTreeSet<u64> {
    ids.iter().copied().collect()
}

#[test]
fn ctrl_click_twice_restores_the_selection() {
    let ids = [4, 8, 15, 16, 23];
    for start in [set(&[]), set(&[8, 23]), set(&[4, 8, 15, 16, 23])] {
        for id in ids {
            let once = apply_selection(&ids, &start, Some(4), id, SelectionMode::Ctrl);
            let twice = apply_selection(&ids, &once.selection, once.anchor_id, id, SelectionMode::Ctrl);
            assert_eq!(twice.selection, start);
            assert_eq!(once.anchor_id, Some(id));
        }
    }
}

#[test]
fn shift_click_keeps_what_was_selected() {
    let ids = [1, 2, 3, 4, 5, 6];
    let start = set(&[6]);
    let state = apply_selection(&ids, &start, Some(2), 4, SelectionMode::Shift);
    assert!(start.is_subset(&state.selection));
    assert_eq!(state.selection, set(&[2, 3, 4, 6]));
}

#[test]
fn inverting_twice_restores_and_inverting_all_empties() {
    let ids = [1, 2, 3, 4];
    let start = set(&[2, 3]);
    let once = invert_selection(&ids, &start, None);
    let twice = invert_selection(&ids, &once.selection, once.anchor_id);
    assert_eq!(twice.selection, start);
    assert!(invert_selection(&ids, &set(&ids), Some(1)).selection.is_empty());
}

#[test]
fn keyboard_step_always_lands_on_a_listed_frame() {
    let ids = [10, 20, 30];
    for offset in [-2isize, -1, 1, 2] {
        let state = extend_selection_by_step(&ids, &set(&[20]), Some(99), offset);
        let anchor = state.anchor_id.unwrap();
        assert!(ids.contains(&anchor));
        assert!(state.selection.contains(&anchor));
        assert!(state.selection.contains(&20));
    }
}

#[test]
fn stepping_stays_on_the_timeline() {
    let ids = [3, 1, 2];
    for offset in [-5isize, -1, 0, 1, 5] {
        assert!(ids.contains(&step_frame_id(&ids, Some(7), offset).unwrap()));
    }
    assert_eq!(step_frame_id(&ids, Some(1), 0), Some(1));
    assert_eq!(step_frame_id(&[], Some(1), 1), None);
}

#[test]
fn higher_quality_never_raises_the_rate_factor() {
    let mut last = u32::MAX;
    for quality in [0u32, 2000, 4500, 7500, 8000, 9200, 10000, 12000] {
        let profile = ExportProfile {
            format: ExportFormat::Mp4,
            mp4_video_encoder: "libx265".to_string(),
            quality_hundredths: quality,
            ..ExportProfile::default()
        };
        let args = build_effective_command("m", "o.mp4", &profile, &None).unwrap();
        let crf: u32 = args[14].parse().unwrap();
        assert!(crf <= last);
        assert!((12..=35).contains(&crf));
        last = crf;
    }
    assert_eq!(last, 12);
}

#[test]
fn every_command_ends_with_the_output_path() {
    for raw in ["", "-an", "-metadata 'a b'"] {
        let profile = ExportProfile { raw_args: raw.to_string(), ..ExportProfile::default() };
        let args = build_effective_command("list.txt", "result.webp", &profile, &None).unwrap();
        assert_eq!(args.last().unwrap(), "result.webp");
        assert_eq!(args[9], "-i");
        assert_eq!(args[10], "list.txt");
    }
}

fn timeline_of(names: &[&str]) -> Timeline {
    let mut timeline = Timeline::new();
    timeline.import_paths(names.iter().map(|name| name.to_string()).collect());
    timeline
}

#[test]
fn pasting_keeps_frame_ids_distinct() {
    let mut timeline = timeline_of(&["a.png", "b.png", "c.png"]);
    let clipboard = timeline.selected_frames(&set(&[1, 3]));
    let before = timeline.frame_id_list();
    let inserted = timeline.paste_after_selection(&set(&[2]), &clipboard);
    assert_eq!(inserted, vec![4, 5]);
    assert!(inserted.iter().all(|id| !before.contains(id)));
    let ids = timeline.frame_id_list();
    assert_eq!(ids, vec![1, 2, 4, 5, 3]);
    let unique: BTreeSet<u64> = ids.iter().copied().collect();
    assert_eq!(unique.len(), ids.len());
}

#[test]
fn moving_one_frame_up_then_down_restores_the_order() {
    for id in [2, 3, 4] {
        let mut timeline = timeline_of(&["a.png", "b.png", "c.png", "d.png"]);
        timeline.move_selection_up(&set(&[id]));
        assert_ne!(timeline.frame_id_list(), vec![1, 2, 3, 4]);
        timeline.move_selection_down(&set(&[id]));
        assert_eq!(timeline.frame_id_list(), vec![1, 2, 3, 4]);
    }
}

#[test]
fn copies_come_round_by_round() {
    let mut timeline = timeline_of(&["a.png", "b.png"]);
    let source = timeline.duplicate_loop_source(&set(&[]));
    let inserted = timeline.append_copies(&source, 3);
    assert_eq!(inserted, vec![3, 4, 5, 6, 7, 8]);
    let names: Vec<String> = timeline.frames().iter().skip(2).map(|frame| frame.file_name()).collect();
    assert_eq!(names, vec!["a.png", "b.png", "a.png", "b.png", "a.png", "b.png"]);

    let mut zero = timeline_of(&["a.png", "b.png"]);
    let mut one = timeline_of(&["a.png", "b.png"]);
    assert_eq!(zero.append_copies(&source, 0), one.append_copies(&source, 1));
    assert_eq!(zero.frame_id_list(), one.frame_id_list());
}
