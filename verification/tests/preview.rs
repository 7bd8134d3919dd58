use awebpinator::types::{CropRect, FitMode, FrameItem, TransformSpec};
use awebpinator::ui::{
    crop_rect_for_frame, following_frame_id, immediate_preview_path, playback_start_frame_id,
    preview_render_size_from_values, preview_result_is_usable, should_refresh_preview, step_frame_id, CropAnchor,
    CropPreset, PreviewRenderSize, section_header_icon,
};
use awebpinator::paths::UiPreferences;

#[test]
fn step_frame_navigation_clamps_to_timeline_bounds() {
    let frame_ids = vec![10, 20, 30];

    assert_eq!(step_frame_id(&frame_ids, Some(10), -1), Some(10));
    assert_eq!(step_frame_id(&frame_ids, Some(20), -1), Some(10));
    assert_eq!(step_frame_id(&frame_ids, Some(20), 1), Some(30));
    assert_eq!(step_frame_id(&frame_ids, Some(30), 1), Some(30));
}

#[test]
fn playback_starts_from_first_frame_when_at_end_or_unset() {
    let frame_ids = vec![10, 20, 30];

    assert_eq!(playback_start_frame_id(&frame_ids, None), Some(10));
    assert_eq!(playback_start_frame_id(&frame_ids, Some(20)), Some(20));
    assert_eq!(playback_start_frame_id(&frame_ids, Some(30)), Some(10));
}

#[test]
fn following_frame_only_exists_before_end() {
    let frame_ids = vec![10, 20, 30];

    assert_eq!(following_frame_id(&frame_ids, Some(10)), Some(20));
    assert_eq!(following_frame_id(&frame_ids, Some(20)), Some(30));
    assert_eq!(following_frame_id(&frame_ids, Some(30)), None);
}

#[test]
fn immediate_preview_uses_source_before_thumbnail_when_not_playing() {
    let frame = FrameItem {
        id: 1,
        source_path: "source.png".to_string(),
        duration_ms: 100,
        transform_spec: TransformSpec {
            rotate_quarter_turns: 0,
            flip_horizontal: false,
            flip_vertical: false,
            crop: None,
            resize: None,
            fit_mode: FitMode::Contain,
        },
        thumbnail_path: Some("thumb.png".to_string()),
        enabled: true,
        source_dimensions: None,
    };

    assert_eq!(
        immediate_preview_path(&frame, None, None, false),
        "source.png".to_string()
    );
}

#[test]
fn immediate_preview_prefers_cached_render_when_available() {
    let frame = FrameItem {
        id: 1,
        source_path: "source.png".to_string(),
        duration_ms: 100,
        transform_spec: TransformSpec::default(),
        thumbnail_path: Some("thumb.png".to_string()),
        enabled: true,
        source_dimensions: None,
    };

    assert_eq!(
        immediate_preview_path(&frame, Some("preview.png".to_string()), None, true),
        "preview.png".to_string()
    );
}

#[test]
fn immediate_preview_keeps_current_render_before_proxy() {
    let frame = FrameItem {
        id: 1,
        source_path: "source.png".to_string(),
        duration_ms: 100,
        transform_spec: TransformSpec::default(),
        thumbnail_path: Some("thumb.png".to_string()),
        enabled: true,
        source_dimensions: None,
    };

    assert_eq!(
        immediate_preview_path(
            &frame,
            None,
            Some(&"existing-preview.png".to_string()),
            false,
        ),
        "existing-preview.png".to_string()
    );
}

#[test]
fn immediate_preview_keeps_current_render_during_playback() {
    let frame = FrameItem {
        id: 1,
        source_path: "source.png".to_string(),
        duration_ms: 100,
        transform_spec: TransformSpec::default(),
        thumbnail_path: Some("thumb.png".to_string()),
        enabled: true,
        source_dimensions: None,
    };

    assert_eq!(
        immediate_preview_path(
            &frame,
            None,
            Some(&"existing-preview.png".to_string()),
            true,
        ),
        "existing-preview.png".to_string()
    );
}

#[test]
fn immediate_preview_uses_source_before_thumbnail_during_playback() {
    let frame = FrameItem {
        id: 1,
        source_path: "source.png".to_string(),
        duration_ms: 100,
        transform_spec: TransformSpec::default(),
        thumbnail_path: Some("thumb.png".to_string()),
        enabled: true,
        source_dimensions: None,
    };

    assert_eq!(
        immediate_preview_path(&frame, None, None, true),
        "source.png".to_string()
    );
}

#[test]
fn immediate_preview_falls_back_to_source_when_thumbnail_is_unavailable() {
    let frame = FrameItem {
        id: 1,
        source_path: "source.png".to_string(),
        duration_ms: 100,
        transform_spec: TransformSpec::default(),
        thumbnail_path: None,
        enabled: true,
        source_dimensions: None,
    };

    assert_eq!(
        immediate_preview_path(&frame, None, None, true),
        "source.png".to_string()
    );
}

#[test]
fn immediate_preview_keeps_current_render_for_transformed_playback_frame() {
    let frame = FrameItem {
        id: 1,
        source_path: "source.png".to_string(),
        duration_ms: 100,
        transform_spec: TransformSpec {
            rotate_quarter_turns: 1,
            flip_horizontal: false,
            flip_vertical: false,
            crop: None,
            resize: None,
            fit_mode: FitMode::Contain,
        },
        thumbnail_path: Some("thumb.png".to_string()),
        enabled: true,
        source_dimensions: None,
    };

    assert_eq!(
        immediate_preview_path(
            &frame,
            None,
            Some(&"existing-preview.png".to_string()),
            true,
        ),
        "existing-preview.png".to_string()
    );
}

#[test]
fn immediate_preview_keeps_existing_preview_for_transformed_playback_without_thumbnail() {
    let frame = FrameItem {
        id: 1,
        source_path: "source.png".to_string(),
        duration_ms: 100,
        transform_spec: TransformSpec {
            rotate_quarter_turns: 1,
            flip_horizontal: false,
            flip_vertical: false,
            crop: None,
            resize: None,
            fit_mode: FitMode::Contain,
        },
        thumbnail_path: None,
        enabled: true,
        source_dimensions: None,
    };

    assert_eq!(
        immediate_preview_path(
            &frame,
            None,
            Some(&"existing-preview.png".to_string()),
            true,
        ),
        "existing-preview.png".to_string()
    );
}

#[test]
fn preview_render_size_uses_allocated_size_and_scale_factor() {
    let render_size = preview_render_size_from_values(800, 450, 720, 360, 2);

    assert_eq!(
        render_size,
        PreviewRenderSize {
            width: 1600,
            height: 900
        }
    );
}

#[test]
fn preview_render_size_falls_back_to_requested_size() {
    let render_size = preview_render_size_from_values(0, 0, 720, 360, 1);

    assert_eq!(
        render_size,
        PreviewRenderSize {
            width: 720,
            height: 360
        }
    );
}

#[test]
fn should_refresh_preview_only_when_target_exceeds_rendered_size() {
    assert!(should_refresh_preview(
        None,
        PreviewRenderSize {
            width: 720,
            height: 360
        }
    ));
    assert!(!should_refresh_preview(
        Some(PreviewRenderSize {
            width: 1440,
            height: 720
        }),
        PreviewRenderSize {
            width: 720,
            height: 360
        },
    ));
    assert!(should_refresh_preview(
        Some(PreviewRenderSize {
            width: 720,
            height: 360
        }),
        PreviewRenderSize {
            width: 1080,
            height: 720
        },
    ));
}

#[test]
fn preview_result_is_usable_only_for_current_frame_and_target() {
    assert!(preview_result_is_usable(Some(5), 5));
    assert!(!preview_result_is_usable(Some(5), 6));
    assert!(!preview_result_is_usable(None, 5));
}

#[test]
fn quick_crop_centers_square_within_landscape_frame() {
    let frame = FrameItem {
        id: 1,
        source_path: "source.png".to_string(),
        duration_ms: 100,
        transform_spec: TransformSpec::default(),
        thumbnail_path: None,
        enabled: true,
        source_dimensions: Some((1920, 1080)),
    };

    assert_eq!(
        crop_rect_for_frame(&frame, CropPreset::Square, CropAnchor::Center),
        Some(CropRect {
            x: 420,
            y: 0,
            width: 1080,
            height: 1080,
        })
    );
}

#[test]
fn quick_crop_respects_existing_crop_and_end_anchor() {
    let frame = FrameItem {
        id: 1,
        source_path: "source.png".to_string(),
        duration_ms: 100,
        transform_spec: TransformSpec {
            crop: Some(CropRect {
                x: 100,
                y: 200,
                width: 1000,
                height: 1000,
            }),
            ..TransformSpec::default()
        },
        thumbnail_path: None,
        enabled: true,
        source_dimensions: Some((1920, 1080)),
    };

    assert_eq!(
        crop_rect_for_frame(&frame, CropPreset::Portrait9x16, CropAnchor::End),
        Some(CropRect {
            x: 538,
            y: 200,
            width: 562,
            height: 1000,
        })
    );
}

#[test]
fn section_icons_follow_the_section_title() {
    assert_eq!(section_header_icon("Guided Crop"), ("image-crop-symbolic", "icon-tone-coral"));
    assert_eq!(section_header_icon("Health"), ("heart-symbolic", "icon-tone-green"));
    assert_eq!(section_header_icon("Effective Command"), ("utilities-terminal-symbolic", "icon-tone-coral"));
    assert_eq!(section_header_icon("Something Else"), ("applications-system-symbolic", "icon-tone-cyan"));
}

#[test]
fn advanced_controls_start_hidden() {
    assert!(!UiPreferences::default().advanced_mode);
}
