//! Export planning: the ffmpeg command line, the concat manifest, the output
//! path and the export size.
use crate::mp4::{fallback_name, is_known_mp4_encoder, known_entry, software_fallback_mp4_encoder};
use crate::text::{
    ascii_lower, char_vec, decimal, decimal_string, is_white_space, padded_decimal_string, padded_digits, push_char, push_str,
    same_text, text_of, texts, trim_text, trimmed, white_space,
};
use crate::types::{
    EncoderPreset, ExportFormat, ExportProfile, FrameItem, OriginalSizeReference, ResizeTarget,
};
use vstd::prelude::*;

verus! {

// ---------------------------------------------------------------- paths

/// What `Path::extension` gives for a path.
pub uninterp spec fn path_extension(path: Seq<char>) -> Option<Seq<char>>;

/// What `Path::with_extension` gives for a path and an extension.
pub uninterp spec fn path_with_extension(path: Seq<char>, ext: Seq<char>) -> Seq<char>;

/// Calls `std::path::Path::extension`. The result is claimed to be
/// `path_extension` of the path; nothing more is stated of it. An extension
/// that is not valid Unicode cannot arise, since the path is a `str`.
#[verifier::external_body]
pub(crate) fn std_path_extension(path: &str) -> (r: Option<String>)
    ensures
        match r {
            Some(e) => path_extension(path@) == Some(e@),
            None => path_extension(path@) is None,
        },
{
    match std::path::Path::new(path).extension() {
        Some(e) => Some(e.to_string_lossy().into_owned()),
        None => None,
    }
}

/// Calls `std::path::Path::with_extension`. The result is claimed to be
/// `path_with_extension` of the arguments; nothing more is stated of it.
/// The extension holds no `/`, on which the call panics.
#[verifier::external_body]
fn std_path_with_extension(path: &str, ext: &str) -> (r: String)
    requires
        forall|i: int| 0 <= i < ext@.len() ==> ext@[i] != '/',
    ensures
        r@ == path_with_extension(path@, ext@),
{
    std::path::Path::new(path).with_extension(ext).to_string_lossy().into_owned()
}

/// The output path for a format: the path itself when it has an extension,
/// else the path with the format's extension.
pub open spec fn output_path_for(path: Seq<char>, format: ExportFormat) -> Seq<char> {
    if path_extension(path) is Some {
        path
    } else {
        path_with_extension(path, format.extension_text())
    }
}

pub fn normalized_output_path_for_format(path: &str, format: ExportFormat) -> (r: String)
    ensures
        r@ == output_path_for(path@, format),
{
    if std_path_extension(path).is_some() {
        return text_of(path);
    }
    let ext = format.extension();
    proof {
        reveal_strlit("webp");
        reveal_strlit("mp4");
    }
    std_path_with_extension(path, ext)
}

/// The output path of an animated WebP export.
pub fn normalized_output_path(path: &str) -> (r: String)
    ensures
        r@ == output_path_for(path@, ExportFormat::WebP),
{
    normalized_output_path_for_format(path, ExportFormat::WebP)
}

// ---------------------------------------------------------------- shell words

/// The characters a word may hold to be shown without quotes.
pub open spec fn plain_char(c: char) -> bool {
    ||| ('a' <= c && c <= 'z')
    ||| ('A' <= c && c <= 'Z')
    ||| ('0' <= c && c <= '9')
    ||| c == '-' || c == '_' || c == '.' || c == '/' || c == '=' || c == ':'
}

/// `s` with every single quote written as `'\''`.
pub open spec fn escape_quotes(s: Seq<char>) -> Seq<char>
    decreases s.len(),
{
    if s.len() == 0 {
        s
    } else if s.last() == '\'' {
        escape_quotes(s.drop_last()) + seq!['\'', '\\', '\'', '\'']
    } else {
        escape_quotes(s.drop_last()).push(s.last())
    }
}

/// A word as a shell reads it back: unchanged when every character is
/// plain, else single-quoted.
pub open spec fn shell_word(s: Seq<char>) -> Seq<char> {
    if forall|i: int| 0 <= i < s.len() ==> plain_char(#[trigger] s[i]) {
        s
    } else {
        seq!['\''] + escape_quotes(s) + seq!['\'']
    }
}

/// The words separated by single spaces.
pub open spec fn joined(words: Seq<Seq<char>>) -> Seq<char>
    decreases words.len(),
{
    if words.len() == 0 {
        Seq::empty()
    } else if words.len() == 1 {
        words[0]
    } else {
        joined(words.drop_last()) + seq![' '] + words.last()
    }
}

/// The arguments quoted for a shell and joined by spaces.
pub open spec fn shell_text(args: Seq<Seq<char>>) -> Seq<char> {
    joined(args.map_values(|a: Seq<char>| shell_word(a)))
}

fn is_plain_char(c: char) -> (b: bool)
    ensures
        b == plain_char(c),
{
    ('a' <= c && c <= 'z') || ('A' <= c && c <= 'Z') || ('0' <= c && c <= '9') || c == '-' || c == '_'
        || c == '.' || c == '/' || c == '=' || c == ':'
}

/// Appends `s` with its single quotes escaped.
fn push_escaped(out: &mut String, s: &str)
    ensures
        final(out)@ == old(out)@ + escape_quotes(s@),
{
    let ghost start = out@;
    let cs = char_vec(s);
    let mut i: usize = 0;
    while i < cs.len()
        invariant
            i <= cs@.len(),
            cs@ == s@,
            out@ == start + escape_quotes(cs@.take(i as int)),
        decreases cs@.len() - i,
    {
        let c = cs[i];
        proof {
            assert(cs@.take(i + 1).drop_last() =~= cs@.take(i as int));
        }
        if c == '\'' {
            push_str(out, "'\\''");
            proof {
                reveal_strlit("'\\''");
            }
        } else {
            push_char(out, c);
        }
        assert(out@ =~= start + escape_quotes(cs@.take(i + 1)));
        i += 1;
    }
    assert(cs@.take(cs@.len() as int) =~= s@);
}

fn all_plain(s: &str) -> (b: bool)
    ensures
        b == forall|i: int| 0 <= i < s@.len() ==> plain_char(#[trigger] s@[i]),
{
    let cs = char_vec(s);
    let mut i: usize = 0;
    while i < cs.len()
        invariant
            i <= cs@.len(),
            cs@ == s@,
            forall|k: int| 0 <= k < i ==> plain_char(#[trigger] cs@[k]),
        decreases cs@.len() - i,
    {
        if !is_plain_char(cs[i]) {
            return false;
        }
        i += 1;
    }
    true
}

fn push_shell_word(out: &mut String, arg: &str)
    ensures
        final(out)@ == old(out)@ + shell_word(arg@),
{
    if all_plain(arg) {
        push_str(out, arg);
    } else {
        let ghost start = out@;
        push_char(out, '\'');
        push_escaped(out, arg);
        push_char(out, '\'');
        assert(out@ =~= start + (seq!['\''] + escape_quotes(arg@) + seq!['\'']));
    }
}

/// The arguments quoted for a shell and joined by spaces.
pub fn shell_join(args: &[String]) -> (s: String)
    ensures
        s@ == shell_text(texts(args@)),
{
    let ghost words = texts(args@).map_values(|a: Seq<char>| shell_word(a));
    let mut s = String::new();
    let mut i: usize = 0;
    while i < args.len()
        invariant
            i <= args@.len(),
            words == texts(args@).map_values(|a: Seq<char>| shell_word(a)),
            s@ == joined(words.take(i as int)),
        decreases args@.len() - i,
    {
        proof {
            assert(words.take(i + 1).drop_last() =~= words.take(i as int));
            assert(words[i as int] == shell_word(args@[i as int]@));
        }
        if i > 0 {
            push_char(&mut s, ' ');
        } else {
            assert(joined(words.take(0)) =~= Seq::<char>::empty());
        }
        push_shell_word(&mut s, args[i].as_str());
        proof {
            if i == 0 {
                assert(words.take(1).len() == 1);
                assert(joined(words.take(1)) == words.take(1)[0]);
            }
        }
        assert(s@ =~= joined(words.take(i + 1)));
        i += 1;
    }
    assert(words.take(args@.len() as int) =~= words);
    s
}

// ---------------------------------------------------------------- command

/// Whether `s` is empty after trimming white space.
pub open spec fn blank(s: Seq<char>) -> bool {
    forall|i: int| 0 <= i < s.len() ==> white_space(#[trigger] s[i])
}

fn is_blank(s: &str) -> (b: bool)
    ensures
        b == blank(s@),
{
    let cs = char_vec(s);
    let mut i: usize = 0;
    while i < cs.len()
        invariant
            i <= cs@.len(),
            cs@ == s@,
            forall|k: int| 0 <= k < i ==> white_space(#[trigger] cs@[k]),
        decreases cs@.len() - i,
    {
        if !is_white_space(cs[i]) {
            return false;
        }
        i += 1;
    }
    true
}

/// What `shlex::split` gives for a text: its words as a POSIX shell splits
/// them, or nothing for an unterminated quote or a trailing backslash.
pub uninterp spec fn shlex_words(text: Seq<char>) -> Option<Seq<Seq<char>>>;

/// Calls `shlex::split`. The result is claimed to be `shlex_words` of the
/// text, word by word; nothing more is stated of it.
#[verifier::external_body]
fn shlex_split(text: &str) -> (words: Option<Vec<String>>)
    ensures
        match words {
            Some(w) => shlex_words(text@) == Some(texts(w@)),
            None => shlex_words(text@) is None,
        },
{
    shlex::split(text)
}

/// The extra arguments: none for a blank text, else its shell words.
pub open spec fn raw_words(raw: Seq<char>) -> Option<Seq<Seq<char>>> {
    if blank(raw) {
        Some(Seq::empty())
    } else {
        shlex_words(raw)
    }
}

/// The input options common to every export.
pub open spec fn input_args(manifest: Seq<char>, overwrite: bool) -> Seq<Seq<char>> {
    seq![
        if overwrite {
            "-y"@
        } else {
            "-n"@
        },
        "-hide_banner"@,
        "-loglevel"@,
        "error"@,
        "-nostdin"@,
        "-f"@,
        "concat"@,
        "-safe"@,
        "0"@,
        "-i"@,
        manifest,
    ]
}

/// A quality in hundredths written with two decimals.
pub open spec fn quality_text(h: nat) -> Seq<char> {
    decimal(h / 100) + seq!['.'] + padded_digits(h % 100, 2)
}

/// The animated WebP encoder options.
pub open spec fn webp_args(p: ExportProfile) -> Seq<Seq<char>> {
    seq![
        "-c:v"@,
        "libwebp_anim"@,
        "-quality"@,
        quality_text(p.quality_hundredths as nat),
        "-preset"@,
        p.encoder_preset.ffmpeg_name(),
        "-loop"@,
        decimal(p.loop_count as nat),
        "-cr_threshold"@,
        decimal(p.cr_threshold as nat),
        "-cr_size"@,
        decimal(p.cr_size as nat),
    ] + if p.lossless {
        seq!["-lossless"@, "1"@]
    } else {
        Seq::empty()
    }
}

/// `35 - 23 * q / 100` rounded half away from zero, for the quality `q`
/// clamped to 0..100 (given in hundredths).
pub open spec fn quality_level(h: nat) -> nat {
    let q = if h > 10000 {
        10000
    } else {
        h
    };
    ((355000 - 23 * q) / 10000) as nat
}

pub open spec fn clamped(v: nat, lo: nat, hi: nat) -> nat {
    if v < lo {
        lo
    } else if v > hi {
        hi
    } else {
        v
    }
}

/// The constant rate factor of a software encoder.
pub open spec fn crf_for(h: nat) -> nat {
    clamped(quality_level(h), 12, 35)
}

/// The quality value of NVENC (`-cq`) and of Quick Sync and VAAPI
/// (`-global_quality`).
pub open spec fn hw_level_for(h: nat) -> nat {
    clamped(quality_level(h), 10, 35)
}

pub open spec fn is_nvenc(e: Seq<char>) -> bool {
    e == "hevc_nvenc"@ || e == "h264_nvenc"@ || e == "av1_nvenc"@
}

pub open spec fn is_qsv(e: Seq<char>) -> bool {
    e == "hevc_qsv"@ || e == "h264_qsv"@ || e == "av1_qsv"@
}

pub open spec fn is_vaapi(e: Seq<char>) -> bool {
    e == "hevc_vaapi"@ || e == "h264_vaapi"@ || e == "av1_vaapi"@
}

pub open spec fn is_hevc_tagged(e: Seq<char>) -> bool {
    e == "hevc_nvenc"@ || e == "hevc_qsv"@ || e == "hevc_vaapi"@ || e == "libx265"@
}

/// The encoder an MP4 export uses for a selection: a known encoder as is,
/// except that a Quick Sync or VAAPI encoder falls back to software when
/// there is no render node; an unknown one becomes x265.
pub open spec fn resolved_encoder(selected: Seq<char>, has_render_node: bool) -> Seq<char> {
    if known_entry(selected) is Some {
        if (is_qsv(selected) || is_vaapi(selected)) && !has_render_node {
            fallback_name(selected)
        } else {
            selected
        }
    } else {
        "libx265"@
    }
}

pub open spec fn software_filter() -> Seq<char> {
    "scale=trunc(iw/2)*2:trunc(ih/2)*2,format=yuv420p"@
}

pub open spec fn hardware_filter() -> Seq<char> {
    "scale=trunc(iw/2)*2:trunc(ih/2)*2,format=nv12,hwupload"@
}

/// The encoder options of an MP4 export with encoder `e`.
pub open spec fn mp4_encoder_args(e: Seq<char>, h: nat, node: Seq<char>) -> Seq<Seq<char>> {
    if is_nvenc(e) {
        seq![
            "-c:v"@,
            e,
            "-cq"@,
            decimal(hw_level_for(h)),
            "-b:v"@,
            "0"@,
            "-preset"@,
            "p5"@,
            "-vf"@,
            software_filter(),
        ]
    } else if is_qsv(e) {
        seq![
            "-qsv_device"@,
            node,
            "-vf"@,
            hardware_filter(),
            "-c:v"@,
            e,
            "-global_quality"@,
            decimal(hw_level_for(h)),
        ]
    } else if is_vaapi(e) {
        seq![
            "-vaapi_device"@,
            node,
            "-vf"@,
            hardware_filter(),
            "-c:v"@,
            e,
            "-global_quality"@,
            decimal(hw_level_for(h)),
        ]
    } else if e == "libsvtav1"@ {
        seq!["-c:v"@, e, "-crf"@, decimal(crf_for(h)), "-preset"@, "6"@, "-vf"@, software_filter()]
    } else if e == "libaom-av1"@ {
        seq![
            "-c:v"@,
            e,
            "-crf"@,
            decimal(crf_for(h)),
            "-b:v"@,
            "0"@,
            "-cpu-used"@,
            "4"@,
            "-vf"@,
            software_filter(),
        ]
    } else if e == "libx264"@ || e == "libx265"@ {
        seq!["-c:v"@, e, "-crf"@, decimal(crf_for(h)), "-preset"@, "medium"@, "-vf"@, software_filter()]
    } else {
        seq![
            "-c:v"@,
            "libx265"@,
            "-crf"@,
            decimal(crf_for(h)),
            "-preset"@,
            "medium"@,
            "-vf"@,
            software_filter(),
        ]
    }
}

/// All MP4 options: encoder options, the HEVC tag for HEVC encoders, and
/// the fast-start flag.
pub open spec fn mp4_args(p: ExportProfile, node: Option<Seq<char>>) -> Seq<Seq<char>> {
    let e = resolved_encoder(p.mp4_video_encoder@, node is Some);
    let n = match node {
        Some(n) => n,
        None => Seq::empty(),
    };
    mp4_encoder_args(e, p.quality_hundredths as nat, n) + (if is_hevc_tagged(e) {
        seq!["-tag:v"@, "hvc1"@]
    } else {
        Seq::empty()
    }) + seq!["-movflags"@, "+faststart"@]
}

/// The ffmpeg arguments of an export, or nothing when the extra arguments
/// cannot be split into words.
pub open spec fn effective_command(
    manifest: Seq<char>,
    output: Seq<char>,
    p: ExportProfile,
    node: Option<Seq<char>>,
) -> Option<Seq<Seq<char>>> {
    match raw_words(p.raw_args@) {
        Some(w) => Some(
            input_args(manifest, p.overwrite) + (match p.format {
                ExportFormat::WebP => webp_args(p),
                ExportFormat::Mp4 => mp4_args(p, node),
            }) + w + seq![output],
        ),
        None => None,
    }
}

/// Why an ffmpeg command could not be built.
#[derive(Debug, Clone, Copy, PartialEq, Eq, Structural)]
pub enum CommandError {
    InvalidRawArgs,
}

impl CommandError {
    pub open spec fn text(self) -> Seq<char> {
        "invalid raw ffmpeg arguments"@
    }

    pub fn message(self) -> (s: String)
        ensures
            s@ == self.text(),
    {
        text_of("invalid raw ffmpeg arguments")
    }
}

fn push_arg(args: &mut Vec<String>, a: &str)
    ensures
        texts(final(args)@) == texts(old(args)@).push(a@),
{
    args.push(text_of(a));
    assert(texts(args@) =~= texts(old(args)@).push(a@));
}

fn push_owned(args: &mut Vec<String>, a: String)
    ensures
        texts(final(args)@) == texts(old(args)@).push(a@),
{
    let ghost v = a@;
    args.push(a);
    assert(texts(args@) =~= texts(old(args)@).push(v));
}

fn append_args(args: &mut Vec<String>, more: Vec<String>)
    ensures
        texts(final(args)@) == texts(old(args)@) + texts(more@),
{
    let mut more = more;
    let ghost m = more@;
    args.append(&mut more);
    assert(texts(args@) =~= texts(old(args)@) + texts(m));
}

fn quality_string(h: u32) -> (s: String)
    ensures
        s@ == quality_text(h as nat),
{
    let mut s = decimal_string((h / 100) as u64);
    push_char(&mut s, '.');
    let frac = padded_decimal_string((h % 100) as u64, 2);
    push_str(&mut s, frac.as_str());
    assert(s@ =~= quality_text(h as nat));
    s
}

fn quality_level_of(h: u32) -> (v: u64)
    ensures
        v == quality_level(h as nat),
        10 <= v <= 35,
{
    let q: u64 = if h > 10000 {
        10000
    } else {
        h as u64
    };
    (355000 - 23 * q) / 10000
}

fn crf_value(h: u32) -> (v: u64)
    ensures
        v == crf_for(h as nat),
{
    let v = quality_level_of(h);
    if v < 12 {
        12
    } else if v > 35 {
        35
    } else {
        v
    }
}

fn hw_level_value(h: u32) -> (v: u64)
    ensures
        v == hw_level_for(h as nat),
{
    let v = quality_level_of(h);
    if v < 10 {
        10
    } else if v > 35 {
        35
    } else {
        v
    }
}

fn input_arg_list(manifest: &str, overwrite: bool) -> (args: Vec<String>)
    ensures
        texts(args@) == input_args(manifest@, overwrite),
{
    let mut args: Vec<String> = Vec::new();
    assert(texts(args@) =~= Seq::<Seq<char>>::empty());
    if overwrite {
        push_arg(&mut args, "-y");
    } else {
        push_arg(&mut args, "-n");
    }
    push_arg(&mut args, "-hide_banner");
    push_arg(&mut args, "-loglevel");
    push_arg(&mut args, "error");
    push_arg(&mut args, "-nostdin");
    push_arg(&mut args, "-f");
    push_arg(&mut args, "concat");
    push_arg(&mut args, "-safe");
    push_arg(&mut args, "0");
    push_arg(&mut args, "-i");
    push_arg(&mut args, manifest);
    assert(texts(args@) =~= input_args(manifest@, overwrite));
    args
}

fn webp_arg_list(profile: &ExportProfile) -> (args: Vec<String>)
    ensures
        texts(args@) == webp_args(*profile),
{
    let mut args: Vec<String> = Vec::new();
    assert(texts(args@) =~= Seq::<Seq<char>>::empty());
    push_arg(&mut args, "-c:v");
    push_arg(&mut args, "libwebp_anim");
    push_arg(&mut args, "-quality");
    push_owned(&mut args, quality_string(profile.quality_hundredths));
    push_arg(&mut args, "-preset");
    push_arg(&mut args, profile.encoder_preset.ffmpeg_value());
    push_arg(&mut args, "-loop");
    push_owned(&mut args, decimal_string(profile.loop_count as u64));
    push_arg(&mut args, "-cr_threshold");
    push_owned(&mut args, decimal_string(profile.cr_threshold as u64));
    push_arg(&mut args, "-cr_size");
    push_owned(&mut args, decimal_string(profile.cr_size as u64));
    if profile.lossless {
        push_arg(&mut args, "-lossless");
        push_arg(&mut args, "1");
    }
    assert(texts(args@) =~= webp_args(*profile));
    args
}

fn in_group3(e: &str, a: &str, b: &str, c: &str) -> (r: bool)
    ensures
        r == (e@ == a@ || e@ == b@ || e@ == c@),
{
    same_text(e, a) || same_text(e, b) || same_text(e, c)
}

fn resolved_mp4_encoder_name(selected: &str, has_render_node: bool) -> (r: String)
    ensures
        r@ == resolved_encoder(selected@, has_render_node),
{
    if is_known_mp4_encoder(selected) {
        if (in_group3(selected, "hevc_qsv", "h264_qsv", "av1_qsv") || in_group3(
            selected,
            "hevc_vaapi",
            "h264_vaapi",
            "av1_vaapi",
        )) && !has_render_node {
            text_of(software_fallback_mp4_encoder(selected))
        } else {
            text_of(selected)
        }
    } else {
        text_of("libx265")
    }
}

fn mp4_arg_list(profile: &ExportProfile, dri_render_node: &Option<String>) -> (args: Vec<String>)
    ensures
        texts(args@) == mp4_args(
            *profile,
            match dri_render_node {
                Some(n) => Some(n@),
                None => None,
            },
        ),
{
    let encoder = resolved_mp4_encoder_name(profile.mp4_video_encoder.as_str(), dri_render_node.is_some());
    let e = encoder.as_str();
    let h = profile.quality_hundredths;
    let node = match dri_render_node {
        Some(n) => text_of(n.as_str()),
        None => String::new(),
    };
    let mut args: Vec<String> = Vec::new();
    assert(texts(args@) =~= Seq::<Seq<char>>::empty());
    if in_group3(e, "hevc_nvenc", "h264_nvenc", "av1_nvenc") {
        push_arg(&mut args, "-c:v");
        push_arg(&mut args, e);
        push_arg(&mut args, "-cq");
        push_owned(&mut args, decimal_string(hw_level_value(h)));
        push_arg(&mut args, "-b:v");
        push_arg(&mut args, "0");
        push_arg(&mut args, "-preset");
        push_arg(&mut args, "p5");
        push_arg(&mut args, "-vf");
        push_arg(&mut args, "scale=trunc(iw/2)*2:trunc(ih/2)*2,format=yuv420p");
    } else if in_group3(e, "hevc_qsv", "h264_qsv", "av1_qsv") {
        push_arg(&mut args, "-qsv_device");
        push_arg(&mut args, node.as_str());
        push_arg(&mut args, "-vf");
        push_arg(&mut args, "scale=trunc(iw/2)*2:trunc(ih/2)*2,format=nv12,hwupload");
        push_arg(&mut args, "-c:v");
        push_arg(&mut args, e);
        push_arg(&mut args, "-global_quality");
        push_owned(&mut args, decimal_string(hw_level_value(h)));
    } else if in_group3(e, "hevc_vaapi", "h264_vaapi", "av1_vaapi") {
        push_arg(&mut args, "-vaapi_device");
        push_arg(&mut args, node.as_str());
        push_arg(&mut args, "-vf");
        push_arg(&mut args, "scale=trunc(iw/2)*2:trunc(ih/2)*2,format=nv12,hwupload");
        push_arg(&mut args, "-c:v");
        push_arg(&mut args, e);
        push_arg(&mut args, "-global_quality");
        push_owned(&mut args, decimal_string(hw_level_value(h)));
    } else if same_text(e, "libsvtav1") {
        push_arg(&mut args, "-c:v");
        push_arg(&mut args, e);
        push_arg(&mut args, "-crf");
        push_owned(&mut args, decimal_string(crf_value(h)));
        push_arg(&mut args, "-preset");
        push_arg(&mut args, "6");
        push_arg(&mut args, "-vf");
        push_arg(&mut args, "scale=trunc(iw/2)*2:trunc(ih/2)*2,format=yuv420p");
    } else if same_text(e, "libaom-av1") {
        push_arg(&mut args, "-c:v");
        push_arg(&mut args, e);
        push_arg(&mut args, "-crf");
        push_owned(&mut args, decimal_string(crf_value(h)));
        push_arg(&mut args, "-b:v");
        push_arg(&mut args, "0");
        push_arg(&mut args, "-cpu-used");
        push_arg(&mut args, "4");
        push_arg(&mut args, "-vf");
        push_arg(&mut args, "scale=trunc(iw/2)*2:trunc(ih/2)*2,format=yuv420p");
    } else if same_text(e, "libx264") || same_text(e, "libx265") {
        push_arg(&mut args, "-c:v");
        push_arg(&mut args, e);
        push_arg(&mut args, "-crf");
        push_owned(&mut args, decimal_string(crf_value(h)));
        push_arg(&mut args, "-preset");
        push_arg(&mut args, "medium");
        push_arg(&mut args, "-vf");
        push_arg(&mut args, "scale=trunc(iw/2)*2:trunc(ih/2)*2,format=yuv420p");
    } else {
        push_arg(&mut args, "-c:v");
        push_arg(&mut args, "libx265");
        push_arg(&mut args, "-crf");
        push_owned(&mut args, decimal_string(crf_value(h)));
        push_arg(&mut args, "-preset");
        push_arg(&mut args, "medium");
        push_arg(&mut args, "-vf");
        push_arg(&mut args, "scale=trunc(iw/2)*2:trunc(ih/2)*2,format=yuv420p");
    }
    let ghost main = texts(args@);
    if same_text(e, "hevc_nvenc") || same_text(e, "hevc_qsv") || same_text(e, "hevc_vaapi") || same_text(e, "libx265") {
        push_arg(&mut args, "-tag:v");
        push_arg(&mut args, "hvc1");
    }
    push_arg(&mut args, "-movflags");
    push_arg(&mut args, "+faststart");
    assert(texts(args@) =~= mp4_args(
        *profile,
        match dri_render_node {
            Some(n) => Some(n@),
            None => None,
        },
    ));
    args
}

/// The ffmpeg arguments that encode the frames listed in `manifest_path`
/// into `output_path`. `dri_render_node` is the render node found on the
/// machine, used by Quick Sync and VAAPI encoders. Fails exactly when the
/// extra arguments are not blank and cannot be split into shell words.
pub fn build_effective_command(
    manifest_path: &str,
    output_path: &str,
    profile: &ExportProfile,
    dri_render_node: &Option<String>,
) -> (r: Result<Vec<String>, CommandError>)
    ensures
        ({
            let node = match dri_render_node {
                Some(n) => Some(n@),
                None => None,
            };
            match r {
                Ok(args) => effective_command(manifest_path@, output_path@, *profile, node) == Some(texts(args@)),
                Err(e) => e == CommandError::InvalidRawArgs && effective_command(
                    manifest_path@,
                    output_path@,
                    *profile,
                    node,
                ) is None,
            }
        }),
{
    let mut args = input_arg_list(manifest_path, profile.overwrite);
    match profile.format {
        ExportFormat::WebP => {
            append_args(&mut args, webp_arg_list(profile));
        },
        ExportFormat::Mp4 => {
            append_args(&mut args, mp4_arg_list(profile, dri_render_node));
        },
    }
    if !is_blank(profile.raw_args.as_str()) {
        match shlex_split(profile.raw_args.as_str()) {
            Some(words) => {
                append_args(&mut args, words);
            },
            None => {
                return Err(CommandError::InvalidRawArgs);
            },
        }
    } else {
        assert(texts(args@) + Seq::<Seq<char>>::empty() =~= texts(args@));
    }
    push_arg(&mut args, output_path);
    Ok(args)
}

/// The text shown for an export command: the shell form of the command, or
/// the reason it cannot be built.
pub open spec fn command_preview_text(c: Option<Seq<Seq<char>>>) -> Seq<char> {
    match c {
        Some(args) => "ffmpeg "@ + shell_text(args),
        None => "Invalid advanced args: "@ + "invalid raw ffmpeg arguments"@,
    }
}

pub fn build_command_preview(
    manifest_path: &str,
    output_path: &str,
    profile: &ExportProfile,
    dri_render_node: &Option<String>,
) -> (s: String)
    ensures
        s@ == command_preview_text(
            effective_command(
                manifest_path@,
                output_path@,
                *profile,
                match dri_render_node {
                    Some(n) => Some(n@),
                    None => None,
                },
            ),
        ),
{
    match build_effective_command(manifest_path, output_path, profile, dri_render_node) {
        Ok(args) => {
            let mut s = text_of("ffmpeg ");
            let joined = shell_join(args.as_slice());
            push_str(&mut s, joined.as_str());
            s
        },
        Err(err) => {
            let mut s = text_of("Invalid advanced args: ");
            let m = err.message();
            push_str(&mut s, m.as_str());
            s
        },
    }
}

// ---------------------------------------------------------------- manifest

/// A duration in milliseconds written in seconds with three decimals.
pub open spec fn seconds_text(ms: nat) -> Seq<char> {
    decimal(ms / 1000) + seq!['.'] + padded_digits(ms % 1000, 3)
}

/// The manifest lines of one frame.
pub open spec fn manifest_entry(path: Seq<char>, ms: nat) -> Seq<char> {
    "file '"@ + escape_quotes(path) + "'\n"@ + "duration "@ + seconds_text(ms) + "\n"@
}

pub open spec fn manifest_entries(entries: Seq<(String, u32)>) -> Seq<char>
    decreases entries.len(),
{
    if entries.len() == 0 {
        Seq::empty()
    } else {
        manifest_entries(entries.drop_last()) + manifest_entry(entries.last().0@, entries.last().1 as nat)
    }
}

/// An ffconcat manifest: every frame with its duration, then the last
/// frame once more so that its duration is honoured.
pub open spec fn concat_manifest(entries: Seq<(String, u32)>) -> Seq<char> {
    "ffconcat version 1.0\n"@ + manifest_entries(entries) + "file '"@ + escape_quotes(entries.last().0@)
        + "'\n"@
}

/// Why a manifest could not be written.
#[derive(Debug, Clone, Copy, PartialEq, Eq, Structural)]
pub enum ManifestError {
    Empty,
}

impl ManifestError {
    pub open spec fn text(self) -> Seq<char> {
        "cannot write an empty concat manifest"@
    }

    pub fn message(self) -> (s: String)
        ensures
            s@ == self.text(),
    {
        text_of("cannot write an empty concat manifest")
    }
}

fn seconds_string(ms: u32) -> (s: String)
    ensures
        s@ == seconds_text(ms as nat),
{
    let mut s = decimal_string((ms / 1000) as u64);
    push_char(&mut s, '.');
    let frac = padded_decimal_string((ms % 1000) as u64, 3);
    push_str(&mut s, frac.as_str());
    assert(s@ =~= seconds_text(ms as nat));
    s
}

/// The text of the concat manifest listing the rendered frames with their
/// durations in milliseconds; fails exactly when there are no frames.
pub fn concat_manifest_text(entries: &[(String, u32)]) -> (r: Result<String, ManifestError>)
    ensures
        match r {
            Ok(text) => entries@.len() > 0 && text@ == concat_manifest(entries@),
            Err(e) => entries@.len() == 0 && e == ManifestError::Empty,
        },
{
    if entries.len() == 0 {
        return Err(ManifestError::Empty);
    }
    let mut text = text_of("ffconcat version 1.0\n");
    let ghost head = text@;
    let mut i: usize = 0;
    while i < entries.len()
        invariant
            i <= entries@.len(),
            text@ == head + manifest_entries(entries@.take(i as int)),
        decreases entries@.len() - i,
    {
        proof {
            assert(entries@.take(i + 1).drop_last() =~= entries@.take(i as int));
        }
        let ghost before = text@;
        push_str(&mut text, "file '");
        push_escaped(&mut text, entries[i].0.as_str());
        push_str(&mut text, "'\n");
        push_str(&mut text, "duration ");
        let secs = seconds_string(entries[i].1);
        push_str(&mut text, secs.as_str());
        push_str(&mut text, "\n");
        assert(text@ =~= head + manifest_entries(entries@.take(i + 1)));
        i += 1;
    }
    assert(entries@.take(entries@.len() as int) =~= entries@);
    push_str(&mut text, "file '");
    push_escaped(&mut text, entries[entries.len() - 1].0.as_str());
    push_str(&mut text, "'\n");
    assert(text@ =~= concat_manifest(entries@));
    Ok(text)
}

// ---------------------------------------------------------------- sizes

/// The size of a frame after its rotation and crop, if its source size is
/// known.
pub open spec fn effective_dimensions(f: FrameItem) -> Option<ResizeTarget> {
    match f.source_dimensions {
        None => None,
        Some((w, h)) => match f.transform_spec.crop {
            Some(c) => Some(
                ResizeTarget {
                    width: if c.width > 0 {
                        c.width
                    } else {
                        1
                    },
                    height: if c.height > 0 {
                        c.height
                    } else {
                        1
                    },
                },
            ),
            None => if (f.transform_spec.rotate_quarter_turns as int) % 2 != 0 {
                Some(ResizeTarget { width: h, height: w })
            } else {
                Some(ResizeTarget { width: w, height: h })
            },
        },
    }
}

pub open spec fn area(r: ResizeTarget) -> nat {
    (r.width as nat) * (r.height as nat)
}

/// `a` comes after `b` when sizes are ordered by area, then width, then
/// height.
pub open spec fn larger(a: ResizeTarget, b: ResizeTarget) -> bool {
    ||| area(a) > area(b)
    ||| area(a) == area(b) && (a.width > b.width || (a.width == b.width && a.height > b.height))
}

/// Whether the candidate replaces the current pick.
pub open spec fn prefer(candidate: ResizeTarget, current: ResizeTarget, reference: OriginalSizeReference) -> bool {
    match reference {
        OriginalSizeReference::LargestFrame => larger(candidate, current),
        OriginalSizeReference::SmallestFrame => larger(current, candidate),
    }
}

/// The size of the largest (or smallest) enabled frame of known size; the
/// first such frame wins a tie.
pub open spec fn reference_size(s: Seq<FrameItem>, reference: OriginalSizeReference) -> Option<ResizeTarget>
    decreases s.len(),
{
    if s.len() == 0 {
        None
    } else {
        let prev = reference_size(s.drop_last(), reference);
        let d = if s.last().enabled {
            effective_dimensions(s.last())
        } else {
            None
        };
        match d {
            None => prev,
            Some(c) => match prev {
                None => Some(c),
                Some(cur) => Some(
                    if prefer(c, cur, reference) {
                        c
                    } else {
                        cur
                    },
                ),
            },
        }
    }
}

fn frame_effective_dimensions_for_export(frame: &FrameItem) -> (r: Option<ResizeTarget>)
    ensures
        r == effective_dimensions(*frame),
{
    let (w, h) = match frame.source_dimensions {
        Some(d) => d,
        None => {
            return None;
        },
    };
    match frame.transform_spec.crop {
        Some(c) => Some(
            ResizeTarget {
                width: if c.width > 0 {
                    c.width
                } else {
                    1
                },
                height: if c.height > 0 {
                    c.height
                } else {
                    1
                },
            },
        ),
        None => {
            if frame.transform_spec.rotate_quarter_turns % 2 != 0 {
                Some(ResizeTarget { width: h, height: w })
            } else {
                Some(ResizeTarget { width: w, height: h })
            }
        },
    }
}

fn is_larger(a: ResizeTarget, b: ResizeTarget) -> (r: bool)
    ensures
        r == larger(a, b),
{
    proof {
        lemma_area_fits(a);
        lemma_area_fits(b);
    }
    let area_a = (a.width as u64) * (a.height as u64);
    let area_b = (b.width as u64) * (b.height as u64);
    area_a > area_b || (area_a == area_b && (a.width > b.width || (a.width == b.width && a.height > b.height)))
}

/// The area of a size fits in 64 bits.
proof fn lemma_area_fits(r: ResizeTarget)
    ensures
        (r.width as nat) * (r.height as nat) <= u64::MAX,
{
    let w = r.width as nat;
    let h = r.height as nat;
    assert(w * h <= 0xffff_ffff * 0xffff_ffff) by (nonlinear_arith)
        requires
            w <= 0xffff_ffff,
            h <= 0xffff_ffff,
    ;
}

/// The export size taken from the frames themselves.
pub fn resolved_original_export_size(frames: &[FrameItem], reference: OriginalSizeReference) -> (r: Option<ResizeTarget>)
    ensures
        r == reference_size(frames@, reference),
        r matches Some(rv) ==> exists|i: int|
            0 <= i < frames@.len() && #[trigger] frames@[i].enabled && effective_dimensions(frames@[i]) == Some(rv),
        r matches Some(rv) ==> forall|i: int|
            0 <= i < frames@.len() && #[trigger] frames@[i].enabled && effective_dimensions(frames@[i]) is Some ==> {
                let d = effective_dimensions(frames@[i])->0;
                let da = (d.width as int) * (d.height as int);
                let ra = (rv.width as int) * (rv.height as int);
                match reference {
                    OriginalSizeReference::LargestFrame => da < ra || (da == ra && (d.width < rv.width || (d.width
                        == rv.width && d.height <= rv.height))),
                    OriginalSizeReference::SmallestFrame => da > ra || (da == ra && (d.width > rv.width || (d.width
                        == rv.width && d.height >= rv.height))),
                }
            },
{
    proof {
        law_reference_size_is_extreme(frames@, reference);
        law_reference_size_is_extreme_by_area(frames@, reference);
    }
    let mut best: Option<ResizeTarget> = None;
    let mut i: usize = 0;
    while i < frames.len()
        invariant
            i <= frames@.len(),
            best == reference_size(frames@.take(i as int), reference),
        decreases frames@.len() - i,
    {
        proof {
            assert(frames@.take(i + 1).drop_last() =~= frames@.take(i as int));
        }
        if frames[i].enabled {
            match frame_effective_dimensions_for_export(&frames[i]) {
                Some(c) => {
                    best = match best {
                        None => Some(c),
                        Some(cur) => {
                            let take = match reference {
                                OriginalSizeReference::LargestFrame => is_larger(c, cur),
                                OriginalSizeReference::SmallestFrame => is_larger(cur, c),
                            };
                            Some(
                                if take {
                                    c
                                } else {
                                    cur
                                },
                            )
                        },
                    };
                },
                None => {},
            }
        }
        i += 1;
    }
    assert(frames@.take(frames@.len() as int) =~= frames@);
    best
}

/// The size an export renders at: the profile's size when both sides are
/// given and positive, else the size taken from the frames.
pub open spec fn export_size(s: Seq<FrameItem>, p: ExportProfile) -> Option<ResizeTarget> {
    match (p.output_width, p.output_height) {
        (Some(w), Some(h)) if w > 0 && h > 0 => Some(ResizeTarget { width: w, height: h }),
        _ => reference_size(s, p.original_size_reference),
    }
}

pub fn resolved_export_size(frames: &[FrameItem], profile: &ExportProfile) -> (r: Option<ResizeTarget>)
    ensures
        r == export_size(frames@, *profile),
{
    match (profile.output_width, profile.output_height) {
        (Some(width), Some(height)) => {
            if width > 0 && height > 0 {
                return Some(ResizeTarget { width, height });
            }
        },
        _ => {},
    }
    resolved_original_export_size(frames, profile.original_size_reference)
}

/// The frames that an export includes.
pub open spec fn enabled_only(s: Seq<FrameItem>) -> Seq<FrameItem>
    decreases s.len(),
{
    if s.len() == 0 {
        s
    } else if s.last().enabled {
        enabled_only(s.drop_last()).push(s.last())
    } else {
        enabled_only(s.drop_last())
    }
}

pub fn enabled_frames(frames: &[FrameItem]) -> (r: Vec<FrameItem>)
    ensures
        r@ == enabled_only(frames@),
{
    let mut r: Vec<FrameItem> = Vec::new();
    let mut i: usize = 0;
    while i < frames.len()
        invariant
            i <= frames@.len(),
            r@ == enabled_only(frames@.take(i as int)),
        decreases frames@.len() - i,
    {
        proof {
            assert(frames@.take(i + 1).drop_last() =~= frames@.take(i as int));
        }
        if frames[i].enabled {
            r.push(frames[i].clone());
        }
        i += 1;
    }
    assert(frames@.take(frames@.len() as int) =~= frames@);
    r
}

/// The number of progress buckets while frames are prepared.
pub open spec fn bucket_of(completed: nat, total: nat) -> nat {
    (completed * 24) / (if total > 0 {
        total
    } else {
        1
    })
}

/// Whether a progress report is due after `completed` of `total` frames
/// are ready: when the bucket changed since the last report, or at the end.
/// Returns the decision and the bucket now reached.
pub fn prepare_progress_step(completed: usize, total: usize, last_bucket: Option<usize>) -> (r: (bool, usize))
    requires
        completed <= total,
        total * 24 <= usize::MAX,
    ensures
        r.1 == bucket_of(completed as nat, total as nat),
        r.0 == (last_bucket != Some(r.1) || completed == total),
{
    let divisor = if total > 0 {
        total
    } else {
        1
    };
    proof {
        assert(completed * 24 <= total * 24) by (nonlinear_arith)
            requires
                completed <= total,
        ;
    }
    let bucket = (completed * 24) / divisor;
    let due = match last_bucket {
        Some(b) => b != bucket,
        None => true,
    } || completed == total;
    (due, bucket)
}

// ---------------------------------------------------------------- laws

/// An export command, when it can be built, reads the manifest and writes
/// the output path given: it starts with the overwrite choice, names the
/// manifest as the input and ends with the output path.
pub proof fn law_command_reads_manifest_and_writes_output(
    manifest: Seq<char>,
    output: Seq<char>,
    p: ExportProfile,
    node: Option<Seq<char>>,
)
    ensures
        effective_command(manifest, output, p, node) is Some <==> raw_words(p.raw_args@) is Some,
        effective_command(manifest, output, p, node) matches Some(args) ==> {
            &&& args.len() >= 12
            &&& args[0] == (if p.overwrite {
                "-y"@
            } else {
                "-n"@
            })
            &&& args[9] == "-i"@
            &&& args[10] == manifest
            &&& args.last() == output
        },
{
}

/// A higher quality never gives a higher constant rate factor or hardware
/// quality level.
pub proof fn law_quality_is_monotone(h1: nat, h2: nat)
    requires
        h1 <= h2,
    ensures
        crf_for(h2) <= crf_for(h1),
        hw_level_for(h2) <= hw_level_for(h1),
        12 <= crf_for(h1) <= 35,
        10 <= hw_level_for(h1) <= 35,
{
    let q1: int = if h1 > 10000 {
        10000
    } else {
        h1 as int
    };
    let q2: int = if h2 > 10000 {
        10000
    } else {
        h2 as int
    };
    assert(q1 <= q2);
    vstd::arithmetic::div_mod::lemma_div_is_ordered(355000 - 23 * q2, 355000 - 23 * q1, 10000);
}

/// `larger` orders sizes strictly: never both ways, and transitively.
pub proof fn lemma_larger_is_strict(a: ResizeTarget, b: ResizeTarget, c: ResizeTarget)
    ensures
        !larger(a, a),
        larger(a, b) ==> !larger(b, a),
        larger(a, b) && larger(b, c) ==> larger(a, c),
        !larger(a, b) && !larger(b, a) ==> a == b,
{
}

/// The size taken from the frames belongs to an enabled frame of known
/// size, and no such frame is strictly preferred to it; it is missing only
/// when there is no such frame.
pub proof fn law_reference_size_is_extreme(s: Seq<FrameItem>, reference: OriginalSizeReference)
    ensures
        reference_size(s, reference) is None <==> forall|i: int|
            0 <= i < s.len() ==> !(#[trigger] s[i].enabled && effective_dimensions(s[i]) is Some),
        reference_size(s, reference) matches Some(r) ==> exists|i: int|
            0 <= i < s.len() && #[trigger] s[i].enabled && effective_dimensions(s[i]) == Some(r),
        reference_size(s, reference) matches Some(r) ==> forall|i: int|
            0 <= i < s.len() && #[trigger] s[i].enabled && effective_dimensions(s[i]) is Some ==> !prefer(
                effective_dimensions(s[i]).unwrap(),
                r,
                reference,
            ),
    decreases s.len(),
{
    if s.len() > 0 {
        let p = s.drop_last();
        law_reference_size_is_extreme(p, reference);
        assert(forall|i: int| 0 <= i < p.len() ==> #[trigger] p[i] == s[i]);
        let n = s.len() - 1;
        assert(s[n] == s.last());
        let prev = reference_size(p, reference);
        let r = reference_size(s, reference);
        if let Some(rv) = r {
            if let Some(pv) = prev {
                if rv != pv {
                    assert forall|i: int|
                        0 <= i < s.len() && #[trigger] s[i].enabled && effective_dimensions(s[i]) is Some implies !prefer(
                        effective_dimensions(s[i]).unwrap(),
                        rv,
                        reference,
                    ) by {
                        let d = effective_dimensions(s[i]).unwrap();
                        lemma_larger_is_strict(d, rv, pv);
                        lemma_larger_is_strict(pv, rv, d);
                        lemma_larger_is_strict(rv, pv, d);
                        lemma_larger_is_strict(d, pv, rv);
                        if i < n {
                            assert(p[i] == s[i]);
                        }
                    }
                } else {
                    assert forall|i: int|
                        0 <= i < s.len() && #[trigger] s[i].enabled && effective_dimensions(s[i]) is Some implies !prefer(
                        effective_dimensions(s[i]).unwrap(),
                        rv,
                        reference,
                    ) by {
                        if i < n {
                            assert(p[i] == s[i]);
                        }
                    }
                    let w = choose|w: int| 0 <= w < p.len() && #[trigger] p[w].enabled && effective_dimensions(p[w]) == Some(pv);
                    assert(s[w] == p[w]);
                }
            } else {
                assert forall|i: int|
                    0 <= i < s.len() && #[trigger] s[i].enabled && effective_dimensions(s[i]) is Some implies !prefer(
                    effective_dimensions(s[i]).unwrap(),
                    rv,
                    reference,
                ) by {
                    lemma_larger_is_strict(rv, rv, rv);
                    if i < n {
                        assert(p[i] == s[i]);
                        assert(!(p[i].enabled && effective_dimensions(p[i]) is Some));
                    }
                }
            }
        } else {
            assert forall|i: int| 0 <= i < s.len() implies !(#[trigger] s[i].enabled && effective_dimensions(s[i]) is Some) by {
                if i < n {
                    assert(p[i] == s[i]);
                }
            }
        }
        if r is None {
        } else {
            if forall|i: int| 0 <= i < s.len() ==> !(#[trigger] s[i].enabled && effective_dimensions(s[i]) is Some) {
                if prev is Some {
                    let w = choose|w: int| 0 <= w < p.len() && #[trigger] p[w].enabled && effective_dimensions(p[w]) == prev;
                    assert(s[w] == p[w]);
                }
            }
        }
    }
}

/// The error reported when ffmpeg exits unsuccessfully: its trimmed error
/// output, or its exit status when that output is blank.
pub open spec fn ffmpeg_failure(stderr: Seq<char>, status: Seq<char>) -> Seq<char> {
    if trimmed(stderr).len() == 0 {
        "ffmpeg failed with status "@ + status
    } else {
        "ffmpeg failed: "@ + trimmed(stderr)
    }
}

pub fn ffmpeg_failure_text(stderr: &str, status: &str) -> (s: String)
    ensures
        s@ == ffmpeg_failure(stderr@, status@),
{
    let text = trim_text(stderr);
    if text.as_str().unicode_len() == 0 {
        let mut s = text_of("ffmpeg failed with status ");
        push_str(&mut s, status);
        s
    } else {
        let mut s = text_of("ffmpeg failed: ");
        push_str(&mut s, text.as_str());
        s
    }
}

/// Every libwebp preset is handed to ffmpeg under its own name: its label
/// in lower case, and no two presets share a name.
pub proof fn law_preset_name_is_lowercase_label(p: EncoderPreset, q: EncoderPreset)
    ensures
        p.ffmpeg_name() == ascii_lower(p.label()),
        p != q ==> p.ffmpeg_name() != q.ffmpeg_name(),
        p != q ==> p.label() != q.label(),
{
    reveal_strlit("Default");
    reveal_strlit("Picture");
    reveal_strlit("Photo");
    reveal_strlit("Drawing");
    reveal_strlit("Icon");
    reveal_strlit("Text");
    reveal_strlit("default");
    reveal_strlit("picture");
    reveal_strlit("photo");
    reveal_strlit("drawing");
    reveal_strlit("icon");
    reveal_strlit("text");
    assert(ascii_lower(p.label()) =~= p.ffmpeg_name());
    if p != q {
        assert(p.ffmpeg_name() != q.ffmpeg_name()) by {
            if p.ffmpeg_name().len() == q.ffmpeg_name().len() {
                assert(p.ffmpeg_name()[0] != q.ffmpeg_name()[0] || p.ffmpeg_name()[1] != q.ffmpeg_name()[1]);
            }
        }
        assert(p.label() != q.label()) by {
            if p.label().len() == q.label().len() {
                assert(p.label()[0] != q.label()[0] || p.label()[1] != q.label()[1]);
            }
        }
    }
}

/// A WebP export names the chosen libwebp preset to ffmpeg: somewhere in
/// the command, `-preset` is followed by the preset's label in lower case.
pub proof fn law_webp_command_names_the_preset(
    manifest: Seq<char>,
    output: Seq<char>,
    p: ExportProfile,
    node: Option<Seq<char>>,
)
    requires
        p.format == ExportFormat::WebP,
        effective_command(manifest, output, p, node) is Some,
    ensures
        ({
            let args = effective_command(manifest, output, p, node)->0;
            exists|i: int|
                0 <= i && i + 1 < args.len() && #[trigger] args[i] == "-preset"@ && args[i + 1] == ascii_lower(
                    p.encoder_preset.label(),
                )
        }),
{
    law_preset_name_is_lowercase_label(p.encoder_preset, p.encoder_preset);
    let args = effective_command(manifest, output, p, node)->0;
    assert(args[15] == "-preset"@);
    assert(args[16] == p.encoder_preset.ffmpeg_name());
}

/// The size taken from the frames is the largest (or smallest) by area:
/// with `LargestFrame` no enabled frame of known size covers more pixels,
/// with `SmallestFrame` none covers fewer; among equal areas the width,
/// then the height, decides the same way.
pub proof fn law_reference_size_is_extreme_by_area(s: Seq<FrameItem>, reference: OriginalSizeReference)
    ensures
        reference_size(s, reference) matches Some(r) ==> forall|i: int|
            0 <= i < s.len() && #[trigger] s[i].enabled && effective_dimensions(s[i]) is Some ==> {
                let d = effective_dimensions(s[i])->0;
                let da = (d.width as int) * (d.height as int);
                let ra = (r.width as int) * (r.height as int);
                match reference {
                    OriginalSizeReference::LargestFrame => da < ra || (da == ra && (d.width < r.width || (d.width
                        == r.width && d.height <= r.height))),
                    OriginalSizeReference::SmallestFrame => da > ra || (da == ra && (d.width > r.width || (d.width
                        == r.width && d.height >= r.height))),
                }
            },
{
    law_reference_size_is_extreme(s, reference);
}

} // verus!
