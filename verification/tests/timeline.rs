use std::collections::BTreeSet;

use awebpinator::timeline::Timeline;

fn ids(set: &[u64]) -> BTreeSet<u64> {
    set.iter().copied().collect()
}

fn paths(names: &[&str]) -> Vec<String> {
    names.iter().map(|name| name.to_string()).collect()
}

fn names_of(timeline: &Timeline) -> Vec<String> {
    timeline.frames().iter().map(|frame| frame.file_name()).collect()
}

#[test]
fn duplicate_and_paste_preserve_order() {
    let mut timeline = Timeline::new();
    let imported = timeline.import_paths(paths(&["a.png", "b.png", "c.png"]));

    let selection = ids(&[imported[1]]);
    let inserted = timeline.duplicate_selected(&selection);
    assert_eq!(timeline.frames().len(), 4);
    assert_eq!(timeline.frames()[2].source_path, "b.png".to_string());

    let clipboard = vec![timeline.frames()[0].clone(), timeline.frames()[2].clone()];
    let pasted = timeline.paste_after_selection(&ids(&inserted), &clipboard);
    assert_eq!(pasted.len(), 2);
    assert_eq!(timeline.frames().len(), 6);
    assert_eq!(timeline.frames()[3].source_path, "a.png".to_string());
}

#[test]
fn moving_and_duration_work_on_selection() {
    let mut timeline = Timeline::new();
    let imported = timeline.import_paths(paths(&["a.png", "b.png", "c.png"]));
    let selection = ids(&[imported[2]]);
    timeline.move_selection_up(&selection);
    assert_eq!(timeline.frames()[1].source_path, "c.png".to_string());
    timeline.apply_duration(&selection, 250);
    assert_eq!(timeline.frames()[1].duration_ms, 250);
    timeline.move_selection_down(&selection);
    assert_eq!(timeline.frames()[2].source_path, "c.png".to_string());
}

#[test]
fn reverse_loop_can_skip_endpoints() {
    let mut timeline = Timeline::new();
    let imported = timeline.import_paths(paths(&["a.png", "b.png", "c.png"]));
    let inserted = timeline.append_reverse_loop(&ids(&imported), false);
    let names: Vec<_> = inserted
        .iter()
        .map(|id| {
            timeline
                .frames()
                .iter()
                .find(|frame| &frame.id == id)
                .unwrap()
                .file_name()
        })
        .collect();
    assert_eq!(names, vec!["b.png".to_string()]);
}

#[test]
fn move_frame_to_index_reorders_by_id() {
    let mut timeline = Timeline::new();
    let imported = timeline.import_paths(paths(&["a.png", "b.png", "c.png"]));
    assert!(timeline.move_frame_to_index(imported[0], 3));
    assert_eq!(names_of(&timeline), vec!["b.png", "c.png", "a.png"]);
}

#[test]
fn prepend_paths_keeps_new_images_at_front_in_order() {
    let mut timeline = Timeline::new();
    timeline.import_paths(paths(&["c.png", "d.png"]));

    let imported = timeline.prepend_paths(paths(&["a.png", "b.png"]));

    assert_eq!(imported.len(), 2);
    assert_eq!(names_of(&timeline), vec!["a.png", "b.png", "c.png", "d.png"]);
}

#[test]
fn replace_paths_resets_existing_frames() {
    let mut timeline = Timeline::new();
    timeline.import_paths(paths(&["old.png"]));

    let imported = timeline.replace_paths(paths(&["new-a.png", "new-b.png"]));

    assert_eq!(imported, vec![1, 2]);
    assert_eq!(names_of(&timeline), vec!["new-a.png", "new-b.png"]);
}

#[test]
fn append_copies_repeats_source_order() {
    let mut timeline = Timeline::new();
    let imported = timeline.import_paths(paths(&["a.png", "b.png"]));

    let source = timeline.duplicate_loop_source(&ids(&imported));
    let inserted = timeline.append_copies(&source, 3);

    assert_eq!(inserted.len(), 6);
    let names: Vec<_> = timeline.frames().iter().skip(2).map(|frame| frame.file_name()).collect();
    assert_eq!(names, vec!["a.png", "b.png", "a.png", "b.png", "a.png", "b.png"]);
}
