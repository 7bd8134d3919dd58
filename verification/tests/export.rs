use awebpinator::export::{
    build_command_preview, build_effective_command, concat_manifest_text, enabled_frames, normalized_output_path,
    normalized_output_path_for_format, prepare_progress_step, resolved_export_size, resolved_original_export_size,
    shell_join, ffmpeg_failure_text, CommandError, ManifestError,
};
use awebpinator::types::{
    CropRect, EncoderPreset, ExportFormat, ExportPreset, ExportProfile, FitMode, FrameItem, OriginalSizeReference,
    ResizeTarget, TransformSpec,
};

fn frame(id: u64, path: &str, dimensions: Option<(u32, u32)>) -> FrameItem {
    FrameItem {
        id,
        source_path: path.to_string(),
        duration_ms: 120,
        transform_spec: TransformSpec::default(),
        thumbnail_path: None,
        enabled: true,
        source_dimensions: dimensions,
    }
}

fn strings(words: &[&str]) -> Vec<String> {
    words.iter().map(|word| word.to_string()).collect()
}

#[test]
fn manifest_contains_last_file_twice() {
    let text = concat_manifest_text(&[("/work/a.png".to_string(), 100), ("/work/b.png".to_string(), 250)]).unwrap();
    assert_eq!(text.matches("file '").count(), 3);
    assert!(text.contains("duration 0.250"));
}

#[test]
fn manifest_text_is_exact() {
    let text = concat_manifest_text(&[("a.png".to_string(), 1500), ("it's.png".to_string(), 40)]).unwrap();
    assert_eq!(
        text,
        "ffconcat version 1.0\nfile 'a.png'\nduration 1.500\nfile 'it'\\''s.png'\nduration 0.040\nfile 'it'\\''s.png'\n"
    );
}

#[test]
fn empty_manifest_is_refused() {
    let err = concat_manifest_text(&[]).unwrap_err();
    assert_eq!(err, ManifestError::Empty);
    assert_eq!(err.message(), "cannot write an empty concat manifest");
}

#[test]
fn command_builder_includes_raw_args() {
    let profile = ExportProfile {
        format: ExportFormat::WebP,
        preset: ExportPreset::Balanced,
        output_width: Some(320),
        output_height: Some(240),
        original_size_reference: OriginalSizeReference::LargestFrame,
        fit_mode: FitMode::Contain,
        quality_hundredths: 8000,
        lossless: false,
        encoder_preset: EncoderPreset::Photo,
        mp4_video_encoder: "libx265".to_string(),
        cr_threshold: 0,
        cr_size: 16,
        loop_count: 0,
        overwrite: true,
        raw_args: "-metadata title=test".to_string(),
    };

    let args = build_effective_command("frames.ffconcat", "out.webp", &profile, &None).unwrap();
    assert!(args.contains(&"libwebp_anim".to_string()));
    assert!(args.contains(&"title=test".to_string()));
}

#[test]
fn command_builder_can_target_mp4() {
    let profile = ExportProfile {
        format: ExportFormat::Mp4,
        mp4_video_encoder: "libx265".to_string(),
        quality_hundredths: 8000,
        ..ExportProfile::default()
    };

    let args = build_effective_command("frames.ffconcat", "out.mp4", &profile, &None).unwrap();

    assert!(args.contains(&"libx265".to_string()));
    assert!(args.contains(&"hvc1".to_string()));
    assert!(args.contains(&"+faststart".to_string()));
    assert!(!args.contains(&"libwebp_anim".to_string()));
}

#[test]
fn default_webp_command_is_exact() {
    let args = build_effective_command("frames.ffconcat", "out.webp", &ExportProfile::default(), &None).unwrap();
    assert_eq!(
        args,
        strings(&[
            "-y", "-hide_banner", "-loglevel", "error", "-nostdin", "-f", "concat", "-safe", "0", "-i",
            "frames.ffconcat", "-c:v", "libwebp_anim", "-quality", "75.00", "-preset", "default", "-loop", "0",
            "-cr_threshold", "0", "-cr_size", "16", "out.webp",
        ])
    );
}

#[test]
fn lossless_webp_command_ends_with_lossless_flag_and_output() {
    let mut profile = ExportProfile::default();
    profile.apply_preset(ExportPreset::Lossless);
    profile.overwrite = false;
    let args = build_effective_command("m.txt", "o.webp", &profile, &None).unwrap();
    assert_eq!(args[0], "-n");
    assert_eq!(args[14], "100.00");
    assert_eq!(args[16], "drawing");
    let n = args.len();
    assert_eq!(&args[n - 3..], &strings(&["-lossless", "1", "o.webp"])[..]);
}

#[test]
fn mp4_software_command_is_exact() {
    let profile = ExportProfile {
        format: ExportFormat::Mp4,
        mp4_video_encoder: "libx264".to_string(),
        quality_hundredths: 8000,
        ..ExportProfile::default()
    };
    let args = build_effective_command("m", "o.mp4", &profile, &None).unwrap();
    assert_eq!(
        &args[11..],
        &strings(&[
            "-c:v", "libx264", "-crf", "17", "-preset", "medium", "-vf",
            "scale=trunc(iw/2)*2:trunc(ih/2)*2,format=yuv420p", "-movflags", "+faststart", "o.mp4",
        ])[..]
    );
}

#[test]
fn mp4_vaapi_uses_render_node_or_falls_back() {
    let profile = ExportProfile {
        format: ExportFormat::Mp4,
        mp4_video_encoder: "hevc_vaapi".to_string(),
        quality_hundredths: 10000,
        ..ExportProfile::default()
    };
    let node = Some("/dev/dri/renderD128".to_string());
    let args = build_effective_command("m", "o.mp4", &profile, &node).unwrap();
    assert_eq!(
        &args[11..],
        &strings(&[
            "-vaapi_device", "/dev/dri/renderD128", "-vf", "scale=trunc(iw/2)*2:trunc(ih/2)*2,format=nv12,hwupload",
            "-c:v", "hevc_vaapi", "-global_quality", "12", "-tag:v", "hvc1", "-movflags", "+faststart", "o.mp4",
        ])[..]
    );
    let without = build_effective_command("m", "o.mp4", &profile, &None).unwrap();
    assert_eq!(without[12], "libx265");
    assert_eq!(without[14], "12");
}

#[test]
fn mp4_nvenc_and_unknown_encoders() {
    let mut profile = ExportProfile {
        format: ExportFormat::Mp4,
        mp4_video_encoder: "h264_nvenc".to_string(),
        quality_hundredths: 0,
        ..ExportProfile::default()
    };
    let args = build_effective_command("m", "o.mp4", &profile, &None).unwrap();
    assert_eq!(&args[11..15], &strings(&["-c:v", "h264_nvenc", "-cq", "35"])[..]);
    assert!(!args.contains(&"hvc1".to_string()));
    profile.mp4_video_encoder = "mystery".to_string();
    let args = build_effective_command("m", "o.mp4", &profile, &None).unwrap();
    assert_eq!(&args[11..15], &strings(&["-c:v", "libx265", "-crf", "35"])[..]);
}

#[test]
fn unbalanced_raw_args_are_refused() {
    let profile = ExportProfile { raw_args: "-metadata 'unterminated".to_string(), ..ExportProfile::default() };
    let err = build_effective_command("m", "o.webp", &profile, &None).unwrap_err();
    assert_eq!(err, CommandError::InvalidRawArgs);
    assert_eq!(
        build_command_preview("m", "o.webp", &profile, &None),
        "Invalid advanced args: invalid raw ffmpeg arguments"
    );
}

#[test]
fn blank_raw_args_add_nothing() {
    let profile = ExportProfile { raw_args: "  \t ".to_string(), ..ExportProfile::default() };
    let args = build_effective_command("m", "o.webp", &profile, &None).unwrap();
    assert_eq!(args.len(), 24);
    assert_eq!(args[23], "o.webp");
}

#[test]
fn quoted_raw_args_are_split_as_shell_words() {
    let profile = ExportProfile { raw_args: "-metadata 'title=two words'".to_string(), ..ExportProfile::default() };
    let args = build_effective_command("m", "o.webp", &profile, &None).unwrap();
    let n = args.len();
    assert_eq!(&args[n - 3..], &strings(&["-metadata", "title=two words", "o.webp"])[..]);
}

#[test]
fn command_preview_quotes_words() {
    let preview = build_command_preview("my frames.txt", "out.webp", &ExportProfile::default(), &None);
    assert!(preview.starts_with("ffmpeg -y -hide_banner"));
    assert!(preview.contains(" -i 'my frames.txt' "));
    assert!(preview.ends_with(" out.webp"));
    assert_eq!(shell_join(&strings(&["a", "it's", ""])), "a 'it'\\''s' ");
}

#[test]
fn output_path_adds_webp_extension_when_missing() {
    assert_eq!(normalized_output_path("/tmp/demo"), "/tmp/demo.webp");
    assert_eq!(normalized_output_path("/tmp/demo.webp"), "/tmp/demo.webp");
}

#[test]
fn output_path_adds_mp4_extension_and_keeps_other_extensions() {
    assert_eq!(normalized_output_path_for_format("/tmp/animation", ExportFormat::Mp4), "/tmp/animation.mp4");
    assert_eq!(normalized_output_path_for_format("/tmp/clip.mov", ExportFormat::Mp4), "/tmp/clip.mov");
}

#[test]
fn resolved_original_export_size_uses_largest_or_smallest_frame() {
    let mut second = frame(2, "two.png", Some((900, 600)));
    second.transform_spec = TransformSpec {
        rotate_quarter_turns: 1,
        crop: Some(CropRect { x: 0, y: 0, width: 200, height: 500 }),
        ..TransformSpec::default()
    };
    let frames = vec![frame(1, "one.png", Some((400, 300))), second];

    assert_eq!(
        resolved_original_export_size(&frames, OriginalSizeReference::LargestFrame),
        Some(ResizeTarget { width: 400, height: 300 })
    );
    assert_eq!(
        resolved_original_export_size(&frames, OriginalSizeReference::SmallestFrame),
        Some(ResizeTarget { width: 200, height: 500 })
    );
}

#[test]
fn resolved_export_size_prefers_explicit_custom_dimensions() {
    let frames = vec![frame(1, "one.png", Some((400, 300)))];
    let profile = ExportProfile { output_width: Some(1280), output_height: Some(720), ..ExportProfile::default() };

    assert_eq!(resolved_export_size(&frames, &profile), Some(ResizeTarget { width: 1280, height: 720 }));
}

#[test]
fn export_size_skips_disabled_and_unknown_frames_and_rotates() {
    let mut disabled = frame(1, "big.png", Some((4000, 3000)));
    disabled.enabled = false;
    let unknown = frame(2, "unknown.png", None);
    let mut turned = frame(3, "turned.png", Some((640, 480)));
    turned.transform_spec.rotate_quarter_turns = 3;
    let frames = vec![disabled, unknown, turned];
    assert_eq!(
        resolved_original_export_size(&frames, OriginalSizeReference::LargestFrame),
        Some(ResizeTarget { width: 480, height: 640 })
    );
    assert_eq!(resolved_original_export_size(&frames[..2], OriginalSizeReference::LargestFrame), None);
    let half = ExportProfile { output_width: Some(0), output_height: Some(720), ..ExportProfile::default() };
    assert_eq!(resolved_export_size(&frames, &half), Some(ResizeTarget { width: 480, height: 640 }));
}

#[test]
fn equal_areas_prefer_the_wider_frame() {
    let frames = vec![frame(1, "a.png", Some((200, 300))), frame(2, "b.png", Some((300, 200)))];
    assert_eq!(
        resolved_original_export_size(&frames, OriginalSizeReference::LargestFrame),
        Some(ResizeTarget { width: 300, height: 200 })
    );
    assert_eq!(
        resolved_original_export_size(&frames, OriginalSizeReference::SmallestFrame),
        Some(ResizeTarget { width: 200, height: 300 })
    );
}

#[test]
fn enabled_frames_keeps_order() {
    let mut off = frame(2, "b.png", None);
    off.enabled = false;
    let kept = enabled_frames(&[frame(1, "a.png", None), off, frame(3, "c.png", None)]);
    let ids: Vec<u64> = kept.iter().map(|f| f.id).collect();
    assert_eq!(ids, vec![1, 3]);
}

#[test]
fn progress_reports_each_bucket_once_and_the_end() {
    assert_eq!(prepare_progress_step(0, 48, None), (true, 0));
    assert_eq!(prepare_progress_step(1, 48, Some(0)), (false, 0));
    assert_eq!(prepare_progress_step(2, 48, Some(0)), (true, 1));
    assert_eq!(prepare_progress_step(48, 48, Some(24)), (true, 24));
    assert_eq!(prepare_progress_step(0, 0, Some(0)), (true, 0));
}

#[test]
fn ffmpeg_failure_reports_trimmed_error_output() {
    assert_eq!(
        ffmpeg_failure_text("\n  Unknown encoder 'libfoo'\n", "exit status: 1"),
        "ffmpeg failed: Unknown encoder 'libfoo'"
    );
    assert_eq!(ffmpeg_failure_text(" \n\t", "exit status: 1"), "ffmpeg failed with status exit status: 1");
}
