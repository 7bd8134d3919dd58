use awebpinator::probe::{
    encoder_names_from_listing, first_line, first_render_node, hardware_accels_from_listing, split_lines, split_words,
};

fn strings(words: &[&str]) -> Vec<String> {
    words.iter().map(|word| word.to_string()).collect()
}

#[test]
fn lines_follow_str_lines() {
    let text = "one\r\ntwo\n\nthree\r";
    assert_eq!(split_lines(text), text.lines().map(|l| l.to_string()).collect::<Vec<_>>());
    assert_eq!(split_lines("a\n"), strings(&["a"]));
    assert!(split_lines("").is_empty());
    assert_eq!(split_lines("\n"), strings(&[""]));
    assert_eq!(first_line("ffmpeg version 7.1\nbuilt with gcc"), Some("ffmpeg version 7.1".to_string()));
    assert_eq!(first_line(""), None);
}

#[test]
fn words_follow_split_whitespace() {
    let text = "  V....D libx264 \t H.264\u{a0}x ";
    assert_eq!(split_words(text), text.split_whitespace().map(|w| w.to_string()).collect::<Vec<_>>());
    assert!(split_words(" \n ").is_empty());
}

#[test]
fn encoder_listing_gives_sorted_names() {
    let listing = "Encoders:\n V..... = Video\n ------\n V....D libx265              libx265 H.265\n V....D libx264 libx264\n V....D libx264 again\n A....D aac AAC\n";
    assert_eq!(encoder_names_from_listing(listing), strings(&["=", "aac", "libx264", "libx265"]));
    assert!(encoder_names_from_listing("").is_empty());
}

#[test]
fn hardware_listing_gives_sorted_names_after_heading() {
    let listing = "noise\n  Hardware acceleration methods:\nvdpau\n cuda \n\nvaapi\nqsv\ncuda\n";
    assert_eq!(hardware_accels_from_listing(listing), strings(&["cuda", "qsv", "vaapi", "vdpau"]));
    assert!(hardware_accels_from_listing("vdpau\ncuda\n").is_empty());
}

#[test]
fn render_node_is_the_first_by_name() {
    let entries = strings(&["/dev/dri/card0", "/dev/dri/renderD129", "/dev/dri/by-path", "/dev/dri/renderD128"]);
    assert_eq!(first_render_node(entries), Some("/dev/dri/renderD128".to_string()));
    assert_eq!(first_render_node(strings(&["/dev/dri/card1"])), None);
}
