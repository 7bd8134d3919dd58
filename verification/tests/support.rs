use awebpinator::mp4::{
    collect_mp4_capabilities_with_detection, default_mp4_encoder_name, is_known_mp4_encoder, known_mp4_encoder_label,
    normalized_mp4_encoder, software_fallback_mp4_encoder, Mp4Capabilities, Mp4CodecFamily,
};
use awebpinator::paths::{
    autosave_project_path, filter_image_paths, preferences_path, temporary_preview_path, uri_list_entries,
};
use awebpinator::render::{transform_plan, ImageOp};
use awebpinator::runtime::{diagnostics_from, Diagnostics};
use awebpinator::types::{
    CropRect, EncoderPreset, ExportFormat, ExportPreset, ExportProfile, FitMode, FrameItem, OriginalSizeReference,
    ResizeTarget, TransformSpec,
};
use awebpinator::ui::{
    apply_export_size_preset, crop_from_values, export_dimension_preset, layout_mode_for_width,
    preview_path_is_proxy, resize_dimension_preset, resize_from_values, CropAnchor, CropPreset, DimensionPreset,
    LayoutMode, LoopMethod, WorkflowTab,
};

fn strings(words: &[&str]) -> Vec<String> {
    words.iter().map(|word| word.to_string()).collect()
}

#[test]
fn preference_and_autosave_paths_follow_the_environment_order() {
    assert_eq!(
        preferences_path(Some("/cfg".to_string()), Some("/home/u".to_string())),
        Some("/cfg/awebpinator/ui-preferences.json".to_string())
    );
    assert_eq!(
        preferences_path(None, Some("/home/u".to_string())),
        Some("/home/u/.config/awebpinator/ui-preferences.json".to_string())
    );
    assert_eq!(preferences_path(None, None), None);
    assert_eq!(
        autosave_project_path(Some("/state".to_string()), Some("/cfg".to_string()), None),
        Some("/state/awebpinator/autosave.awebp.json".to_string())
    );
    assert_eq!(
        autosave_project_path(None, Some("/cfg".to_string()), Some("/home/u".to_string())),
        Some("/cfg/awebpinator/autosave.awebp.json".to_string())
    );
    assert_eq!(
        autosave_project_path(None, None, Some("/home/u".to_string())),
        Some("/home/u/.local/state/awebpinator/autosave.awebp.json".to_string())
    );
    assert_eq!(autosave_project_path(None, None, None), None);
}

#[test]
fn temporary_preview_path_sits_next_to_the_target() {
    assert_eq!(temporary_preview_path("/cache/frame-1.png", 42), "/cache/.frame-1.png.42.tmp");
    assert_eq!(temporary_preview_path("/", 7), "/.preview.png.7.tmp");
}

#[test]
fn image_paths_are_recognised_by_extension_in_any_case() {
    let kept = filter_image_paths(strings(&[
        "a.PNG", "b.jpeg", "notes.txt", "c.Tiff", "d", "e.webp", "f.gif", "g.bmp", "h.JPG", "i.tif", ".png",
    ]));
    assert_eq!(kept, strings(&["a.PNG", "b.jpeg", "c.Tiff", "e.webp", "f.gif", "g.bmp", "h.JPG", "i.tif"]));
}

#[test]
fn diagnostics_report_missing_tools() {
    let d = diagnostics_from(None, None, Mp4Capabilities::default());
    assert!(!d.ffmpeg_ok && !d.ffprobe_ok);
    assert_eq!(
        d.issues,
        strings(&[
            "ffmpeg not found in PATH; export will be unavailable",
            "ffprobe not found in PATH; probe-based checks will be unavailable",
        ])
    );
    assert_eq!(
        d.summary(),
        "ffmpeg: missing\nffprobe: missing\nIssues: ffmpeg not found in PATH; export will be unavailable | ffprobe not found in PATH; probe-based checks will be unavailable"
    );
}

#[test]
fn diagnostics_summarise_encoders() {
    let caps = collect_mp4_capabilities_with_detection(
        strings(&["libx264", "libx265"]),
        strings(&["vaapi"]),
        None,
        false,
    );
    let d = diagnostics_from(Some("ffmpeg version 7".to_string()), Some("ffprobe version 7".to_string()), caps);
    assert!(d.issues.is_empty());
    assert_eq!(
        d.summary(),
        "ffmpeg: ffmpeg version 7\nffprobe: ffprobe version 7\nPreferred MP4 encoder: H.265 / HEVC (Software x265)\nAvailable MP4 encoders: H.265 / HEVC (Software x265), H.264 / AVC (Software x264)\nffmpeg hardware acceleration: vaapi"
    );
    let none = diagnostics_from(Some("v".to_string()), None, Mp4Capabilities::default());
    assert_eq!(
        none.issues,
        strings(&[
            "No supported MP4 encoders were detected in this ffmpeg build.",
            "ffprobe not found in PATH; probe-based checks will be unavailable",
        ])
    );
    assert_eq!(Diagnostics::default().summary(), "ffmpeg: missing\nffprobe: missing");
}

#[test]
fn hardware_encoders_need_their_device() {
    let encoders = strings(&["h264_qsv", "hevc_nvenc", "hevc_qsv", "libsvtav1"]);
    let accels = strings(&["cuda", "qsv"]);
    let without = collect_mp4_capabilities_with_detection(encoders.clone(), accels.clone(), None, false);
    let names: Vec<String> = without.encoder_choices.iter().map(|c| c.ffmpeg_name.clone()).collect();
    assert_eq!(names, strings(&["libsvtav1"]));
    assert_eq!(without.encoder_choices[0].codec_family, Mp4CodecFamily::Av1);
    let with = collect_mp4_capabilities_with_detection(encoders, accels, Some("/dev/dri/renderD128".to_string()), true);
    let names: Vec<String> = with.encoder_choices.iter().map(|c| c.ffmpeg_name.clone()).collect();
    assert_eq!(names, strings(&["hevc_nvenc", "hevc_qsv", "h264_qsv", "libsvtav1"]));
    assert_eq!(normalized_mp4_encoder("h264_qsv", &with).as_deref(), Some("h264_qsv"));
    assert_eq!(normalized_mp4_encoder("libx264", &with).as_deref(), Some("hevc_nvenc"));
    assert_eq!(normalized_mp4_encoder("libx264", &Mp4Capabilities::default()), None);
}

#[test]
fn encoder_table_lookups() {
    assert_eq!(default_mp4_encoder_name(), "libx265");
    assert_eq!(known_mp4_encoder_label("av1_vaapi"), Some("AV1 (VAAPI)"));
    assert_eq!(known_mp4_encoder_label("mpeg4"), None);
    assert!(is_known_mp4_encoder("libaom-av1"));
    assert!(!is_known_mp4_encoder("LIBX265"));
    assert_eq!(software_fallback_mp4_encoder("av1_qsv"), "libsvtav1");
    assert_eq!(software_fallback_mp4_encoder("hevc_vaapi"), "libx265");
    assert_eq!(software_fallback_mp4_encoder("unknown"), "libx265");
}

#[test]
fn transform_plan_orders_rotation_flips_crop_and_fits() {
    let spec = TransformSpec {
        rotate_quarter_turns: -1,
        flip_horizontal: true,
        flip_vertical: false,
        crop: Some(CropRect { x: 500, y: 10, width: 900, height: 50 }),
        resize: Some(ResizeTarget { width: 320, height: 240 }),
        fit_mode: FitMode::Stretch,
    };
    let export = Some((ResizeTarget { width: 100, height: 100 }, FitMode::Contain));
    let ops = transform_plan(640, 480, &spec, export);
    assert_eq!(
        ops,
        vec![
            ImageOp::Rotate270,
            ImageOp::FlipHorizontal,
            ImageOp::Crop(CropRect { x: 479, y: 10, width: 1, height: 50 }),
            ImageOp::Fit(ResizeTarget { width: 320, height: 240 }, FitMode::Stretch),
            ImageOp::Fit(ResizeTarget { width: 100, height: 100 }, FitMode::Contain),
        ]
    );
    assert_eq!(transform_plan(10, 10, &TransformSpec::default(), None), vec![]);
}

#[test]
fn crop_is_clamped_to_the_image() {
    let spec = TransformSpec { crop: Some(CropRect { x: 50, y: 60, width: 100, height: 100 }), ..TransformSpec::default() };
    assert_eq!(transform_plan(80, 90, &spec, None), vec![ImageOp::Crop(CropRect { x: 50, y: 60, width: 30, height: 30 })]);
    let spec = TransformSpec {
        rotate_quarter_turns: 6,
        crop: Some(CropRect { x: 0, y: 0, width: 0, height: 0 }),
        ..TransformSpec::default()
    };
    assert_eq!(
        transform_plan(80, 90, &spec, None),
        vec![ImageOp::Rotate180, ImageOp::Crop(CropRect { x: 0, y: 0, width: 1, height: 1 })]
    );
}

#[test]
fn inspector_helpers() {
    assert_eq!(crop_from_values(1, 2, 0, 0), None);
    assert_eq!(crop_from_values(1, 2, 0, 5), Some(CropRect { x: 1, y: 2, width: 0, height: 5 }));
    assert_eq!(resize_from_values(0, 5), None);
    assert_eq!(resize_from_values(4, 5), Some(ResizeTarget { width: 4, height: 5 }));
    assert_eq!(resize_dimension_preset(None), DimensionPreset::Original);
    assert_eq!(resize_dimension_preset(Some(ResizeTarget { width: 1920, height: 1080 })), DimensionPreset::Hd1080);
    assert_eq!(resize_dimension_preset(Some(ResizeTarget { width: 1280, height: 720 })), DimensionPreset::Hd720);
    assert_eq!(resize_dimension_preset(Some(ResizeTarget { width: 10, height: 720 })), DimensionPreset::Custom);
    assert_eq!(layout_mode_for_width(1179), LayoutMode::Compact);
    assert_eq!(layout_mode_for_width(1180), LayoutMode::Regular);
    assert_eq!(layout_mode_for_width(0), LayoutMode::Regular);
}

#[test]
fn export_size_presets() {
    let mut profile = ExportProfile::default();
    assert_eq!(export_dimension_preset(&profile), DimensionPreset::Original);
    assert!(!apply_export_size_preset(&mut profile, DimensionPreset::Hd1080));
    assert_eq!((profile.output_width, profile.output_height), (Some(1920), Some(1080)));
    assert_eq!(export_dimension_preset(&profile), DimensionPreset::Hd1080);
    assert!(!apply_export_size_preset(&mut profile, DimensionPreset::Hd720));
    assert_eq!(export_dimension_preset(&profile), DimensionPreset::Hd720);
    assert!(!apply_export_size_preset(&mut profile, DimensionPreset::Original));
    assert_eq!((profile.output_width, profile.output_height), (None, None));
    assert!(apply_export_size_preset(&mut profile, DimensionPreset::Custom));
    assert_eq!((profile.output_width, profile.output_height), (Some(1280), Some(720)));
    profile.output_width = Some(500);
    assert_eq!(export_dimension_preset(&profile), DimensionPreset::Custom);
}

#[test]
fn preview_proxy_paths() {
    let frame = FrameItem {
        id: 1,
        source_path: "/img/a.png".to_string(),
        duration_ms: 100,
        transform_spec: TransformSpec::default(),
        thumbnail_path: Some("/cache/t.png".to_string()),
        enabled: true,
        source_dimensions: None,
    };
    assert!(preview_path_is_proxy(&frame, "/img/a.png"));
    assert!(preview_path_is_proxy(&frame, "/img//a.png"));
    assert!(preview_path_is_proxy(&frame, "/cache/t.png"));
    assert!(!preview_path_is_proxy(&frame, "/cache/render.png"));
}

#[test]
fn presets_and_labels() {
    let profile = ExportProfile::from_preset(ExportPreset::HighQuality);
    assert_eq!(profile.quality_hundredths, 9200);
    assert_eq!(profile.encoder_preset, EncoderPreset::Photo);
    assert!(!profile.lossless);
    let mut mp4 = ExportProfile { format: ExportFormat::Mp4, raw_args: "-an".to_string(), ..ExportProfile::default() };
    mp4.apply_preset(ExportPreset::Lossless);
    assert_eq!(mp4.format, ExportFormat::Mp4);
    assert_eq!(mp4.raw_args, "-an");
    assert!(mp4.lossless);
    assert_eq!(mp4.quality_hundredths, 10000);
    assert_eq!(ExportFormat::Mp4.extension(), "mp4");
    assert_eq!(ExportFormat::WebP.extension(), "webp");
    assert_eq!(OriginalSizeReference::SmallestFrame.as_str(), "Smallest Frame");
    assert_eq!(DimensionPreset::Hd1080.as_str(), "1080p");
    assert_eq!(CropPreset::Landscape16x9.title(), "Widescreen");
    assert_eq!(CropAnchor::End.helper_text(), "Bias the crop toward the bottom or right edge.");
    assert_eq!(Mp4CodecFamily::Av1.as_str(), "AV1");
    assert!(!WorkflowTab::Edit.stack_name().is_empty());
    assert!(!LoopMethod::Duplicate.title().is_empty());
}

#[test]
fn file_name_is_the_last_component() {
    let mut frame = FrameItem {
        id: 1,
        source_path: "/a/b/c.png".to_string(),
        duration_ms: 100,
        transform_spec: TransformSpec::default(),
        thumbnail_path: None,
        enabled: true,
        source_dimensions: None,
    };
    assert_eq!(frame.file_name(), "c.png");
    frame.source_path = "/".to_string();
    assert!(!frame.file_name().is_empty());
}

#[test]
fn diagnostics_without_ffmpeg_carry_no_capabilities() {
    let caps = collect_mp4_capabilities_with_detection(
        strings(&["hevc_nvenc", "libx265"]),
        strings(&["cuda"]),
        Some("/dev/dri/renderD128".to_string()),
        true,
    );
    let d = diagnostics_from(None, Some("ffprobe version 7".to_string()), caps);
    assert!(d.mp4_capabilities.available_encoders.is_empty());
    assert!(d.mp4_capabilities.hardware_accels.is_empty());
    assert!(d.mp4_capabilities.encoder_choices.is_empty());
    assert_eq!(d.mp4_capabilities.preferred_encoder, None);
    assert_eq!(d.mp4_capabilities.dri_render_node, None);
    assert!(!d.mp4_capabilities.nvidia_device_available);
}

#[test]
fn uri_lists_drop_blank_lines_and_comments() {
    let text = "# dragged from files\r\nfile:///home/me/a.png\r\n\r\n  /home/me/b.png  \n#comment\n";
    assert_eq!(uri_list_entries(text), strings(&["file:///home/me/a.png", "/home/me/b.png"]));
    assert!(uri_list_entries("").is_empty());
}
