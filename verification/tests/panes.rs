use awebpinator::preview::{export_preview_status_text, preview_failure_text, PreviewState};
use awebpinator::types::{FrameItem, TransformSpec};
use awebpinator::ui::PreviewRenderSize;

fn size(width: u32, height: u32) -> PreviewRenderSize {
    PreviewRenderSize { width, height }
}

fn frame(id: u64) -> FrameItem {
    FrameItem {
        id,
        source_path: format!("frame-{id}.png"),
        duration_ms: 100,
        transform_spec: TransformSpec::default(),
        thumbnail_path: Some(format!("thumb-{id}.png")),
        enabled: true,
        source_dimensions: Some((640, 480)),
    }
}

#[test]
fn cached_render_is_shown_without_a_new_render() {
    let mut state = PreviewState::new(size(720, 360));
    let render = state.show_frame(&frame(4), Some("cached-4.png".to_string()), false);
    assert!(!render);
    assert_eq!(state.path.as_deref(), Some("cached-4.png"));
    assert_eq!(state.frame_id, Some(4));
    assert_eq!(state.rendered_size, Some(size(720, 360)));
    assert_eq!(state.export_generation, 1);
}

#[test]
fn uncached_frame_shows_its_source_until_rendered() {
    let mut state = PreviewState::new(size(720, 360));
    let render = state.show_frame(&frame(4), None, false);
    assert!(render);
    assert_eq!(state.path.as_deref(), Some("frame-4.png"));
    assert_eq!(state.rendered_size, None);

    let rerender = state.preview_ready(Some(4), 4, size(720, 360), Some("render-4.png".to_string()));
    assert!(!rerender);
    assert_eq!(state.path.as_deref(), Some("render-4.png"));
    assert_eq!(state.rendered_size, Some(size(720, 360)));
}

#[test]
fn same_frame_keeps_its_render_while_a_larger_one_is_made() {
    let mut state = PreviewState::new(size(720, 360));
    state.show_frame(&frame(4), None, false);
    state.preview_ready(Some(4), 4, size(720, 360), Some("render-4.png".to_string()));
    assert!(state.layout_changed(true, size(1440, 720), true));
    let render = state.show_frame(&frame(4), None, true);
    assert!(render);
    assert_eq!(state.path.as_deref(), Some("render-4.png"));
}

#[test]
fn stale_renders_are_ignored() {
    let mut state = PreviewState::new(size(720, 360));
    state.show_frame(&frame(4), None, false);
    let rerender = state.preview_ready(Some(5), 4, size(720, 360), Some("render-4.png".to_string()));
    assert!(!rerender);
    assert_eq!(state.path.as_deref(), Some("frame-4.png"));

    let generation = state.export_generation;
    state.invalidate_export();
    state.export_preview_ready(Some(4), 4, generation, size(720, 360), Some("export-4.png".to_string()));
    assert_eq!(state.export_path, None);
    state.export_preview_ready(Some(4), 4, generation + 1, size(720, 360), Some("export-4.png".to_string()));
    assert_eq!(state.export_path.as_deref(), Some("export-4.png"));
    assert_eq!(state.export_pane_path().as_deref(), Some("export-4.png"));
}

#[test]
fn small_export_render_falls_back_to_the_preview() {
    let mut state = PreviewState::new(size(720, 360));
    state.show_frame(&frame(4), Some("cached-4.png".to_string()), false);
    state.show_cached_export("export-4.png".to_string());
    assert_eq!(state.export_pane_path().as_deref(), Some("export-4.png"));
    assert!(!state.layout_changed(false, size(1440, 720), true));
    assert!(state.layout_changed(true, size(1440, 720), true));
    assert_eq!(state.export_pane_path().as_deref(), Some("cached-4.png"));
}

#[test]
fn clearing_drops_the_preview() {
    let mut state = PreviewState::new(size(720, 360));
    state.show_frame(&frame(4), Some("cached-4.png".to_string()), false);
    state.clear();
    assert_eq!(state.path, None);
    assert_eq!(state.frame_id, None);
    assert_eq!(state.rendered_size, None);
    assert_eq!(state.export_generation, 2);
}

#[test]
fn preview_status_texts() {
    assert_eq!(preview_failure_text(7, "bad image"), "Preview failed for frame 7: bad image");
    assert_eq!(
        export_preview_status_text(7, Some("bad image"), true).as_deref(),
        Some("Export preview failed for frame 7: bad image")
    );
    assert_eq!(
        export_preview_status_text(7, None, true).as_deref(),
        Some("Export preview refreshed with the current export settings.")
    );
    assert_eq!(export_preview_status_text(7, None, false), None);
}
