use std::collections::BTreeSet;

use awebpinator::editor::{diagnostics_overview_text, readiness_text, Editor, EditorAction};
use awebpinator::mp4::Mp4Capabilities;
use awebpinator::runtime::diagnostics_from;
use awebpinator::selection::SelectionMode;
use awebpinator::types::{CropRect, ExportPreset, ExportProfile, FitMode, ResizeTarget};
use awebpinator::ui::{CropAnchor, CropPreset, DimensionPreset, ImportMode, InspectorValues, LoopMethod, LoopScope};

fn paths(names: &[&str]) -> Vec<String> {
    names.iter().map(|name| name.to_string()).collect()
}

fn set(ids: &[u64]) -> BTreeSet<u64> {
    ids.iter().copied().collect()
}

fn editor_with(names: &[&str]) -> Editor {
    let mut editor = Editor::new(ExportProfile::default(), None);
    editor.import_paths(paths(names));
    editor
}

fn refreshed(acts: &[EditorAction]) -> Vec<u64> {
    match acts.first() {
        Some(EditorAction::RefreshFrames(ids)) => ids.clone(),
        _ => Vec::new(),
    }
}

#[test]
fn import_into_empty_timeline_selects_the_new_frames() {
    let mut editor = Editor::new(ExportProfile::default(), None);
    let acts = editor.import_paths(paths(&["a.png", "notes.txt", "b.JPG"]));
    assert_eq!(refreshed(&acts), vec![1, 2]);
    assert!(matches!(acts[1], EditorAction::RefreshPreview));
    assert_eq!(editor.selection, set(&[1, 2]));
    assert_eq!(editor.anchor_id, Some(1));
    assert_eq!(editor.status, "Imported 2 frame(s). Generating thumbnails...");
}

#[test]
fn import_into_filled_timeline_asks_where_to_put_images() {
    let mut editor = editor_with(&["a.png"]);
    let acts = editor.import_paths(paths(&["b.png", "c.txt"]));
    assert_eq!(acts.len(), 1);
    match &acts[0] {
        EditorAction::AskImportMode(valid) => assert_eq!(valid, &paths(&["b.png"])),
        other => panic!("unexpected {other:?}"),
    }
    assert_eq!(editor.timeline.frames().len(), 1);
    let none = editor.import_paths(paths(&["c.txt"]));
    assert!(none.is_empty());
    assert_eq!(editor.status, "No supported image files were provided.");
    let acts = editor.import_with_mode(paths(&["z.png"]), ImportMode::Prepend);
    assert_eq!(refreshed(&acts), vec![2]);
    assert_eq!(editor.timeline.frame_id_list(), vec![2, 1]);
    let acts = editor.import_with_mode(paths(&["y.png"]), ImportMode::Replace);
    assert_eq!(refreshed(&acts), vec![1]);
    assert_eq!(editor.timeline.frame_id_list(), vec![1]);
}

#[test]
fn clicks_follow_the_selection_rules() {
    let mut editor = editor_with(&["a.png", "b.png", "c.png", "d.png"]);
    editor.select_frame(2, SelectionMode::Plain);
    editor.select_frame(4, SelectionMode::Shift);
    assert_eq!(editor.selection, set(&[2, 3, 4]));
    assert_eq!(editor.anchor_id, Some(2));
    editor.select_frame(3, SelectionMode::Ctrl);
    assert_eq!(editor.selection, set(&[2, 4]));
    let acts = editor.select_frame(99, SelectionMode::Plain);
    assert!(matches!(acts[0], EditorAction::RefreshPreview));
    assert_eq!(editor.selection, set(&[2, 4]));
}

#[test]
fn duplicate_copy_paste_and_remove_report_counts() {
    let mut editor = editor_with(&["a.png", "b.png", "c.png"]);
    editor.select_frame(2, SelectionMode::Plain);
    let acts = editor.duplicate_selection();
    assert_eq!(refreshed(&acts), vec![4]);
    assert_eq!(editor.status, "Duplicated 1 frame(s).");
    assert_eq!(editor.timeline.frame_id_list(), vec![1, 2, 4, 3]);
    editor.select_frame(1, SelectionMode::Plain);
    editor.select_frame(3, SelectionMode::Ctrl);
    editor.copy_selection();
    assert_eq!(editor.status, "Copied 2 frame(s).");
    let acts = editor.paste_clipboard();
    assert_eq!(refreshed(&acts), vec![5, 6]);
    assert_eq!(editor.status, "Pasted 2 frame(s).");
    assert_eq!(editor.timeline.frame_id_list(), vec![1, 2, 4, 3, 5, 6]);
    assert_eq!(editor.selection, set(&[5, 6]));
    let acts = editor.remove_selection();
    assert!(matches!(acts[0], EditorAction::InvalidateExportPreview));
    assert_eq!(editor.status, "Removed 2 frame(s).");
    assert!(editor.selection.is_empty());
    assert_eq!(editor.anchor_id, None);
    assert_eq!(editor.timeline.frame_id_list(), vec![1, 2, 4, 3]);
}

#[test]
fn durations_are_at_least_ten_milliseconds() {
    let mut editor = editor_with(&["a.png", "b.png"]);
    editor.apply_batch_duration(3);
    assert_eq!(editor.status, "Applied 10 ms to selected frames.");
    assert!(editor.timeline.frames().iter().all(|f| f.duration_ms == 10));
    editor.set_frame_duration(2, 250);
    editor.set_frame_enabled(1, false);
    assert_eq!(editor.timeline.frames()[1].duration_ms, 250);
    assert!(!editor.timeline.frames()[0].enabled);
}

#[test]
fn moves_and_drops_keep_the_selection() {
    let mut editor = editor_with(&["a.png", "b.png", "c.png"]);
    editor.select_frame(3, SelectionMode::Plain);
    editor.move_selection_up();
    assert_eq!(editor.timeline.frame_id_list(), vec![1, 3, 2]);
    editor.move_selection_down();
    assert_eq!(editor.timeline.frame_id_list(), vec![1, 2, 3]);
    editor.status = String::new();
    editor.drop_frame_at(1, 1);
    assert_eq!(editor.status, "");
    editor.drop_frame_at(1, 3);
    assert_eq!(editor.status, "Reordered frame.");
    assert_eq!(editor.timeline.frame_id_list(), vec![2, 3, 1]);
    assert_eq!(editor.selection, set(&[3]));
}

#[test]
fn loops_follow_method_scope_and_repeats() {
    let mut editor = editor_with(&["a.png", "b.png", "c.png"]);
    editor.set_loop_scope(LoopScope::Selected);
    editor.select_frame(1, SelectionMode::Plain);
    editor.select_frame(1, SelectionMode::Ctrl);
    let acts = editor.create_loop();
    assert!(acts.is_empty());
    assert_eq!(editor.status, "Select a range in the timeline first.");
    editor.set_loop_scope(LoopScope::AllFrames);
    editor.set_loop_method(LoopMethod::PingPong);
    editor.set_loop_repeats(0);
    assert_eq!(editor.loop_repeats, 1);
    assert_eq!(editor.loop_estimate(), (1, 100, 1, 100));
    let acts = editor.create_loop();
    assert_eq!(refreshed(&acts), vec![4]);
    assert_eq!(editor.status, "Created a ping-pong loop with 1 new frame(s).");
    let durations: Vec<u32> = editor.timeline.frames().iter().map(|frame| frame.duration_ms).collect();
    assert_eq!(durations, vec![200, 100, 200, 100]);
    editor.set_loop_method(LoopMethod::Duplicate);
    editor.set_loop_repeats(2);
    assert_eq!(editor.loop_estimate(), (4, 600, 8, 1200));
    let acts = editor.create_loop();
    assert_eq!(refreshed(&acts).len(), 8);
    assert_eq!(editor.loop_source_label_text(), "Using all images in the timeline");
}

#[test]
fn reverse_and_duplicate_loop_shortcuts() {
    let mut editor = editor_with(&["a.png", "b.png", "c.png"]);
    let acts = editor.append_reverse_loop(false);
    assert_eq!(refreshed(&acts), vec![4]);
    assert_eq!(editor.status, "Appended reverse loop with 1 frame(s).");
    let acts = editor.append_duplicate_loop();
    assert_eq!(refreshed(&acts), vec![5]);
    assert_eq!(editor.status, "Appended duplicate loop with 1 frame(s).");
}

#[test]
fn quick_crop_messages() {
    let mut editor = editor_with(&["a.png", "b.png"]);
    editor.select_frame(1, SelectionMode::Plain);
    editor.select_frame(1, SelectionMode::Ctrl);
    assert!(editor.apply_quick_crop().is_empty());
    assert_eq!(editor.status, "Select frames in the timeline before applying a crop.");
    editor.select_frame(1, SelectionMode::Plain);
    editor.select_frame(2, SelectionMode::Shift);
    assert!(editor.apply_quick_crop().is_empty());
    assert_eq!(
        editor.status,
        "Crop could not be applied yet because the selected frames have no image size information."
    );
    assert_eq!(editor.crop_summary_text(), "Crop will be ready once the selected frame dimensions are known.");
    editor.thumbnail_ready(1, Some("/cache/1.png".to_string()), Some((1920, 1080)), None, 1);
    assert_eq!(editor.timeline.frames()[0].thumbnail_path.as_deref(), Some("/cache/1.png"));
    editor.set_crop_preset(CropPreset::Landscape16x9);
    assert_eq!(editor.crop_summary_text(), "Crop will be ready once the selected frame dimensions are known.");
    editor.set_crop_preset(CropPreset::Square);
    editor.set_crop_anchor(CropAnchor::Start);
    assert_eq!(
        editor.crop_summary_text(),
        "Square preset. 1:1 crop for avatars, thumbnails, and grids. Bias the crop toward the top or left edge.. Primary frame preview crop: 1080 x 1080 at 0,0."
    );
    let acts = editor.apply_quick_crop();
    assert!(matches!(acts[0], EditorAction::RefreshSelection));
    assert_eq!(
        editor.status,
        "Applied a square crop to 1 frame(s); skipped 1 frame(s) without image size information."
    );
    assert_eq!(editor.timeline.frames()[0].transform_spec.crop, Some(CropRect { x: 0, y: 0, width: 1080, height: 1080 }));
    let acts = editor.clear_quick_crop();
    assert_eq!(acts.len(), 2);
    assert_eq!(editor.status, "Cleared crop from 1 frame(s).");
    assert!(editor.clear_quick_crop().is_empty());
    assert_eq!(editor.status, "The selected frames do not currently have a crop to clear.");
}

#[test]
fn transform_actions_report_and_refresh_the_selection() {
    let mut editor = editor_with(&["a.png", "b.png"]);
    editor.select_frame(2, SelectionMode::Plain);
    let acts = editor.rotate_selection(1);
    assert_eq!(acts.len(), 2);
    assert_eq!(editor.status, "Updated rotation for selected frames.");
    editor.toggle_selection_flip(false);
    assert_eq!(editor.status, "Updated vertical flip for selected frames.");
    editor.apply_inspector_values(InspectorValues {
        flip_horizontal: true,
        flip_vertical: false,
        crop: None,
        resize: Some(ResizeTarget { width: 10, height: 20 }),
        fit_mode: FitMode::Cover,
    });
    assert_eq!(editor.status, "Applied edit values to selected frames.");
    let spec = editor.timeline.frames()[1].transform_spec;
    assert_eq!(spec.rotate_quarter_turns, 1);
    assert!(spec.flip_horizontal && !spec.flip_vertical);
    assert_eq!(
        editor.preview_meta_text(true),
        "b.png\nunknown | 100 ms | rotate 1 quarter-turns\nno crop | resize 10x20 | fit Cover | flip h:true v:false"
    );
    assert_eq!(editor.preview_meta_text(false), "b.png\nunknown • 100 ms • resized");
}

#[test]
fn navigation_and_playback() {
    let mut editor = editor_with(&["a.png", "b.png", "c.png"]);
    let acts = editor.go_to_boundary(true);
    assert!(matches!(acts[0], EditorAction::RefreshPreview));
    assert_eq!(editor.selection, set(&[3]));
    assert_eq!(editor.status, "Moved to last frame.");
    assert!(editor.go_to_boundary(true).is_empty());
    editor.step(-1);
    assert_eq!(editor.selection, set(&[2]));
    assert_eq!(editor.status, "Moved back one frame.");
    let acts = editor.toggle_playback();
    assert!(editor.playback_active);
    assert_eq!(editor.status, "Playback started.");
    let generation = editor.playback_generation;
    assert!(matches!(acts.last(), Some(EditorAction::SchedulePlaybackAdvance { delay_ms: 100, .. })));
    assert!(editor.playback_advance(generation + 7).is_empty());
    let acts = editor.playback_advance(generation);
    assert_eq!(editor.selection, set(&[3]));
    assert_eq!(acts.len(), 2);
    let acts = editor.playback_advance(generation);
    assert!(acts.is_empty());
    assert!(!editor.playback_active);
    assert_eq!(editor.status, "Playback finished.");
    assert_eq!(editor.playback_generation, generation + 1);
    editor.toggle_playback();
    assert_eq!(editor.selection, set(&[1]));
    editor.toggle_playback();
    assert_eq!(editor.status, "Playback paused.");
    let mut empty = Editor::new(ExportProfile::default(), None);
    assert!(empty.step(1).is_empty());
    assert_eq!(empty.status, "No frames in timeline.");
    empty.toggle_playback();
    assert_eq!(empty.status, "No frames in timeline.");
}

#[test]
fn export_settings_and_export_runs() {
    let mut editor = editor_with(&["a.png"]);
    assert!(editor.export_now().is_empty());
    assert_eq!(editor.status, "Choose an output path first.");
    editor.set_output_path("   ");
    assert_eq!(editor.last_output_path, None);
    editor.set_output_path("  /tmp/out.webp \n");
    assert_eq!(editor.last_output_path.as_deref(), Some("/tmp/out.webp"));
    let acts = editor.export_now();
    assert!(matches!(&acts[0], EditorAction::StartExport { output_path } if output_path == "/tmp/out.webp"));
    assert_eq!(editor.status, "Exporting to /tmp/out.webp ...");
    assert!(editor.export_now().is_empty());
    assert_eq!(editor.status, "Export already running.");
    editor.export_finished(Err("ffmpeg exited with status 1".to_string()));
    assert!(!editor.export_in_progress);
    assert_eq!(editor.status, "Export failed: ffmpeg exited with status 1");
    editor.export_finished(Ok("/tmp/out.webp".to_string()));
    assert_eq!(editor.status, "Exported /tmp/out.webp");
    editor.set_quality(12345);
    assert_eq!(editor.export_profile.quality_hundredths, 10000);
    editor.set_export_preset(ExportPreset::FastPreview);
    assert_eq!(editor.export_profile.quality_hundredths, 4500);
    let acts = editor.set_export_size_preset(DimensionPreset::Custom);
    assert!(matches!(acts[1], EditorAction::ShowAdvancedControls));
    assert_eq!(editor.export_dimensions_text(), "1280 x 720");
    editor.set_output_width(0);
    assert_eq!(editor.export_profile.output_width, None);
    assert_eq!(editor.export_dimensions_text(), "Original size");
    editor.thumbnail_ready(1, None, Some((640, 480)), None, 0);
    assert_eq!(editor.status, "Timeline thumbnails ready.");
    assert_eq!(editor.export_dimensions_text(), "640 x 480");
    editor.thumbnail_ready(1, None, None, Some("bad image".to_string()), 0);
    assert_eq!(editor.status, "Thumbnail failed for frame 1: bad image");
    assert_eq!(
        editor.export_preview_meta_text(false, false),
        "a.png\n640 x 480 • 100 ms\nExport size: 640 x 480 • fit Contain\nClick Preview Export to render with the current export sizing.\nOutput: /tmp/out.webp"
    );
}

#[test]
fn opening_a_project_selects_everything() {
    let mut source = editor_with(&["a.png", "b.png"]);
    source.duplicate_selection();
    let frames = source.timeline.frames().to_vec();
    let mut editor = Editor::new(ExportProfile::default(), None);
    let acts = editor.open_project(frames, ExportProfile::default(), Some("/tmp/x.webp".to_string()), "/tmp/p.json");
    assert!(matches!(acts[0], EditorAction::InvalidateExportPreview));
    assert!(matches!(&acts[1], EditorAction::RefreshFrames(ids) if ids == &vec![1, 3, 2, 4]));
    assert_eq!(editor.selection, set(&[1, 2, 3, 4]));
    assert_eq!(editor.anchor_id, Some(1));
    assert_eq!(editor.status, "Loaded project /tmp/p.json. Refreshing thumbnails...");
    editor.import_paths(paths(&["c.png"]));
    assert_eq!(editor.timeline.next_frame_id(), 5);
}

#[test]
fn summaries() {
    let mut editor = Editor::new(ExportProfile::default(), None);
    assert_eq!(editor.selection_summary_text(), "Add images to begin building your animation.");
    assert_eq!(editor.preview_meta_text(false), "Select a frame to inspect it.");
    editor.import_paths(paths(&["a.png", "b.png", "c.png"]));
    assert_eq!(editor.selection_summary_text(), "3 frames selected. Batch actions will apply across that range.");
    editor.select_frame(1, SelectionMode::Plain);
    assert_eq!(
        editor.selection_summary_text(),
        "1 frame selected. Changes will apply to that frame unless you expand the selection."
    );
    editor.select_frame(1, SelectionMode::Ctrl);
    assert_eq!(editor.selection_summary_text(), "3 images loaded. Select frames in the timeline to start editing.");
    assert_eq!(
        editor.loop_preview_meta_text(false),
        "Select a range in the timeline to preview how the loop will feel."
    );
    assert_eq!(editor.crop_summary_text(), "Choose a crop shape, then apply it to the selected frames.");
    assert_eq!(readiness_text(false, true, true, false, 2), "Preparing");
    assert_eq!(readiness_text(true, false, false, true, 0), "Exporting");
    assert_eq!(readiness_text(false, true, false, false, 0), "Needs Setup");
    assert_eq!(readiness_text(false, true, true, true, 0), "Add Images");
    assert_eq!(readiness_text(false, true, true, false, 0), "Ready");
    let missing = diagnostics_from(None, Some("v".to_string()), Mp4Capabilities::default());
    assert_eq!(diagnostics_overview_text(&missing), "ffmpeg not found in PATH; export will be unavailable");
    let fine = diagnostics_from(Some("v".to_string()), Some("v".to_string()), Mp4Capabilities::default());
    assert_eq!(
        diagnostics_overview_text(&fine),
        "Everything looks good. ffmpeg and ffprobe are available for export and probing."
    );
}

#[test]
fn export_preview_target_needs_both_sides() {
    let mut editor = Editor::new(ExportProfile::default(), None);
    assert_eq!(editor.export_preview_target(), None);
    editor.set_output_width(1280);
    assert_eq!(editor.export_preview_target(), None);
    editor.set_output_height(720);
    assert_eq!(editor.export_preview_target(), Some(ResizeTarget { width: 1280, height: 720 }));
    editor.set_output_height(0);
    assert_eq!(editor.export_preview_target(), None);
}

#[test]
fn ping_pong_loop_appends_interior_and_doubles_the_ends() {
    let mut editor = editor_with(&["a.png", "b.png", "c.png"]);
    editor.set_loop_method(LoopMethod::PingPong);
    editor.set_loop_scope(LoopScope::Selected);
    editor.set_loop_repeats(1);
    assert_eq!(editor.selection, set(&[1, 2, 3]));
    let acts = editor.create_loop();
    assert_eq!(refreshed(&acts), vec![4]);
    let frames = editor.timeline.frames();
    let names: Vec<String> = frames.iter().map(|frame| frame.file_name()).collect();
    assert_eq!(names, vec!["a.png", "b.png", "c.png", "b.png"]);
    let durations: Vec<u32> = frames.iter().map(|frame| frame.duration_ms).collect();
    assert_eq!(durations, vec![200, 100, 200, 100]);
}

#[test]
fn ping_pong_doubles_only_the_ends_of_the_selected_range() {
    let mut editor = editor_with(&["a.png", "b.png", "c.png", "d.png", "e.png"]);
    editor.select_frame(2, SelectionMode::Plain);
    editor.select_frame(4, SelectionMode::Shift);
    let acts = editor.create_loop();
    assert_eq!(refreshed(&acts), vec![6]);
    let durations: Vec<u32> = editor.timeline.frames().iter().map(|frame| frame.duration_ms).collect();
    assert_eq!(durations, vec![100, 200, 100, 200, 100, 100]);
}

#[test]
fn duplicate_and_reverse_loops_keep_durations() {
    let mut editor = editor_with(&["a.png", "b.png", "c.png"]);
    editor.set_loop_method(LoopMethod::Reverse);
    editor.create_loop();
    let durations: Vec<u32> = editor.timeline.frames().iter().map(|frame| frame.duration_ms).collect();
    assert_eq!(durations, vec![100; 6]);
}
