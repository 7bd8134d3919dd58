use awebpinator::mp4::{
    collect_mp4_capabilities_with_detection, normalized_mp4_encoder, software_fallback_mp4_encoder,
    Mp4CodecFamily,
};

/// The names in sorted order without repeats, as a set of names lists them.
fn set(values: &[&str]) -> Vec<String> {
    let mut names: Vec<String> = values.iter().map(|value| (*value).to_string()).collect();
    names.sort();
    names.dedup();
    names
}

#[test]
fn prefers_hevc_gpu_encoder_when_available() {
    let capabilities = collect_mp4_capabilities_with_detection(
        set(&["hevc_nvenc", "libx265", "libx264"]),
        set(&["cuda"]),
        None,
        true,
    );

    assert_eq!(capabilities.preferred_encoder.as_deref(), Some("hevc_nvenc"));
    assert_eq!(capabilities.encoder_choices[0].codec_family, Mp4CodecFamily::Hevc);
    assert!(capabilities.encoder_choices[0].hardware);
}

#[test]
fn falls_back_to_software_when_selected_encoder_missing() {
    let capabilities = collect_mp4_capabilities_with_detection(set(&["libx265", "libx264"]), set(&[]), None, false);

    assert_eq!(normalized_mp4_encoder("hevc_nvenc", &capabilities).as_deref(), Some("libx265"));
    assert_eq!(software_fallback_mp4_encoder("h264_nvenc"), "libx264");
}
