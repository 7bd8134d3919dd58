use std::collections::BTreeSet;

use awebpinator::types::{CropRect, FitMode, FrameItem, ResizeTarget, TransformSpec};
use awebpinator::timeline::Timeline;
use awebpinator::ui::{CropAnchor, CropPreset, InspectorValues};

fn ids(set: &[u64]) -> BTreeSet<u64> {
    set.iter().copied().collect()
}

fn paths(names: &[&str]) -> Vec<String> {
    names.iter().map(|name| name.to_string()).collect()
}

fn names_of(timeline: &Timeline) -> Vec<String> {
    timeline.frames().iter().map(|frame| frame.file_name()).collect()
}

fn abcde() -> (Timeline, Vec<u64>) {
    let mut timeline = Timeline::new();
    let imported = timeline.import_paths(paths(&["a.png", "b.png", "c.png", "d.png", "e.png"]));
    (timeline, imported)
}

#[test]
fn imported_frames_get_consecutive_ids_and_defaults() {
    let (timeline, imported) = abcde();
    assert_eq!(imported, vec![1, 2, 3, 4, 5]);
    let first = &timeline.frames()[0];
    assert_eq!(first.duration_ms, 100);
    assert!(first.enabled);
    assert_eq!(first.transform_spec, TransformSpec::default());
    assert_eq!(first.thumbnail_path, None);
}

#[test]
fn move_up_keeps_selected_and_unselected_orders() {
    let (mut timeline, _) = abcde();
    timeline.move_selection_up(&ids(&[2, 4, 5]));
    assert_eq!(names_of(&timeline), vec!["b.png", "a.png", "d.png", "e.png", "c.png"]);
    timeline.move_selection_up(&ids(&[2, 4, 5]));
    assert_eq!(names_of(&timeline), vec!["b.png", "d.png", "e.png", "a.png", "c.png"]);
}

#[test]
fn move_down_mirrors_move_up() {
    let (mut timeline, _) = abcde();
    timeline.move_selection_down(&ids(&[1, 2, 4]));
    assert_eq!(names_of(&timeline), vec!["c.png", "a.png", "b.png", "e.png", "d.png"]);
    timeline.move_selection_down(&ids(&[5]));
    assert_eq!(names_of(&timeline), vec!["c.png", "a.png", "b.png", "d.png", "e.png"]);
}

#[test]
fn remove_selected_keeps_the_rest_in_order() {
    let (mut timeline, _) = abcde();
    timeline.remove_selected(&ids(&[1, 3, 9]));
    assert_eq!(names_of(&timeline), vec!["b.png", "d.png", "e.png"]);
    assert_eq!(timeline.frame_id_list(), vec![2, 4, 5]);
    let next = timeline.import_paths(paths(&["f.png"]));
    assert_eq!(next, vec![6]);
}

#[test]
fn duplicate_puts_each_copy_after_its_original() {
    let (mut timeline, _) = abcde();
    let inserted = timeline.duplicate_selected(&ids(&[2, 4]));
    assert_eq!(inserted, vec![6, 7]);
    assert_eq!(timeline.frame_id_list(), vec![1, 2, 6, 3, 4, 7, 5]);
    assert_eq!(timeline.frames().len(), 5 + 2);
}

#[test]
fn paste_without_selection_goes_to_the_end() {
    let (mut timeline, _) = abcde();
    let clipboard = vec![timeline.frames()[1].clone()];
    let pasted = timeline.paste_after_selection(&ids(&[]), &clipboard);
    assert_eq!(pasted, vec![6]);
    assert_eq!(timeline.frame_id_list(), vec![1, 2, 3, 4, 5, 6]);
    assert_eq!(timeline.frames()[5].source_path, "b.png");
    assert!(timeline.paste_after_selection(&ids(&[1]), &[]).is_empty());
    assert_eq!(timeline.frames().len(), 6);
}

#[test]
fn move_frame_to_index_handles_both_directions_and_unknown_ids() {
    let (mut timeline, _) = abcde();
    assert!(timeline.move_frame_to_index(5, 0));
    assert_eq!(timeline.frame_id_list(), vec![5, 1, 2, 3, 4]);
    assert!(timeline.move_frame_to_index(1, 99));
    assert_eq!(timeline.frame_id_list(), vec![5, 2, 3, 4, 1]);
    assert!(!timeline.move_frame_to_index(42, 0));
}

#[test]
fn reverse_loop_with_edges_and_all_frames() {
    let mut timeline = Timeline::new();
    timeline.import_paths(paths(&["a.png", "b.png", "c.png"]));
    let source = timeline.reverse_loop_source(&ids(&[]), true);
    let names: Vec<String> = source.iter().map(|f| f.file_name()).collect();
    assert_eq!(names, vec!["c.png", "b.png", "a.png"]);
    let inserted = timeline.append_reverse_loop(&ids(&[]), true);
    assert_eq!(inserted, vec![4, 5, 6]);
    assert_eq!(names_of(&timeline), vec!["a.png", "b.png", "c.png", "c.png", "b.png", "a.png"]);
}

#[test]
fn duplicate_loop_appends_the_selection_once() {
    let (mut timeline, _) = abcde();
    let inserted = timeline.append_duplicate_loop(&ids(&[4, 2]));
    assert_eq!(inserted, vec![6, 7]);
    assert_eq!(names_of(&timeline)[5..], ["b.png".to_string(), "d.png".to_string()]);
}

#[test]
fn append_copies_with_zero_repeats_adds_one_round() {
    let (mut timeline, _) = abcde();
    let source = timeline.selected_frames(&ids(&[3]));
    let inserted = timeline.append_copies(&source, 0);
    assert_eq!(inserted.len(), 1);
}

#[test]
fn durations_and_enabling_change_only_their_frame() {
    let (mut timeline, _) = abcde();
    timeline.set_frame_duration(2, 0);
    timeline.set_frame_duration(3, 400);
    timeline.set_frame_enabled(4, false);
    let durations: Vec<u32> = timeline.frames().iter().map(|f| f.duration_ms).collect();
    assert_eq!(durations, vec![100, 10, 400, 100, 100]);
    assert!(!timeline.frames()[3].enabled);
    assert_eq!(timeline.total_duration_ms(), 710);
}

#[test]
fn transforms_apply_to_the_selection_only() {
    let (mut timeline, _) = abcde();
    let sel = ids(&[1, 3]);
    timeline.rotate_selection(&sel, 1);
    timeline.rotate_selection(&sel, -3);
    timeline.toggle_selection_flip(&sel, true);
    timeline.toggle_selection_flip(&ids(&[3]), false);
    let a = timeline.frames()[0].transform_spec;
    let b = timeline.frames()[1].transform_spec;
    let c = timeline.frames()[2].transform_spec;
    assert_eq!(a.rotate_quarter_turns, -2);
    assert!(a.flip_horizontal && !a.flip_vertical);
    assert_eq!(b, TransformSpec::default());
    assert!(c.flip_horizontal && c.flip_vertical);
}

#[test]
fn inspector_values_and_crops() {
    let (mut timeline, _) = abcde();
    let values = InspectorValues {
        flip_horizontal: true,
        flip_vertical: false,
        crop: Some(CropRect { x: 1, y: 2, width: 3, height: 4 }),
        resize: Some(ResizeTarget { width: 640, height: 480 }),
        fit_mode: FitMode::Cover,
    };
    timeline.apply_inspector_values(&ids(&[2]), values);
    let spec = timeline.frames()[1].transform_spec;
    assert_eq!(spec.crop, values.crop);
    assert_eq!(spec.resize, values.resize);
    assert_eq!(spec.fit_mode, FitMode::Cover);
    assert_eq!(timeline.clear_selection_crop(&ids(&[1, 2, 3])), 1);
    assert_eq!(timeline.frames()[1].transform_spec.crop, None);
}

#[test]
fn quick_crop_counts_applied_and_skipped_frames() {
    let frames = vec![
        FrameItem {
            id: 1,
            source_path: "wide.png".to_string(),
            duration_ms: 100,
            transform_spec: TransformSpec::default(),
            thumbnail_path: None,
            enabled: true,
            source_dimensions: Some((1920, 1080)),
        },
        FrameItem {
            id: 2,
            source_path: "unknown.png".to_string(),
            duration_ms: 100,
            transform_spec: TransformSpec::default(),
            thumbnail_path: None,
            enabled: true,
            source_dimensions: None,
        },
        FrameItem {
            id: 7,
            source_path: "square.png".to_string(),
            duration_ms: 100,
            transform_spec: TransformSpec::default(),
            thumbnail_path: None,
            enabled: true,
            source_dimensions: Some((500, 500)),
        },
    ];
    let mut timeline = Timeline::from_frames(frames);
    assert_eq!(timeline.apply_quick_crop(&ids(&[1, 2, 7]), CropPreset::Square, CropAnchor::Start), (1, 2));
    assert_eq!(timeline.frames()[0].transform_spec.crop, Some(CropRect { x: 0, y: 0, width: 1080, height: 1080 }));
    assert_eq!(timeline.frames()[2].transform_spec.crop, None);
    assert_eq!(timeline.import_paths(paths(&["next.png"])), vec![8]);
}

#[test]
fn selection_queries_follow_timeline_order() {
    let (timeline, _) = abcde();
    let chosen: Vec<u64> = timeline.selected_frames(&ids(&[5, 2])).iter().map(|f| f.id).collect();
    assert_eq!(chosen, vec![2, 5]);
    assert_eq!(timeline.primary_selected_id(&ids(&[5, 2])), Some(2));
    assert_eq!(timeline.primary_selected_id(&ids(&[9])), None);
    assert_eq!(Timeline::selected_indices(&ids(&[5, 2]), timeline.frames()), vec![1, 4]);
    assert!(!timeline.is_empty());
    assert!(Timeline::new().is_empty());
}

#[test]
fn clone_with_new_id_takes_the_next_id() {
    let (mut timeline, _) = abcde();
    let source = timeline.frames()[0].clone();
    let copy = timeline.clone_with_new_id(&source);
    assert_eq!(copy.id, 6);
    assert_eq!(copy.source_path, "a.png");
    assert_eq!(timeline.frames().len(), 5);
    assert_eq!(timeline.import_paths(paths(&["f.png"])), vec![7]);
}
