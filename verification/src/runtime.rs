//! The diagnostics report: which tools are present, what MP4 export can use,
//! and what is missing.
use crate::mp4::{known_entry, known_mp4_encoder_label, Mp4Capabilities, Mp4EncoderChoice};
use crate::text::{join_strings, join_with, push_str, text_of, texts};
use vstd::prelude::*;

verus! {

/// The state of the external tools that export relies on.
#[derive(Debug)]
pub struct Diagnostics {
    pub ffmpeg_ok: bool,
    pub ffprobe_ok: bool,
    pub ffmpeg_version: Option<String>,
    pub ffprobe_version: Option<String>,
    pub mp4_capabilities: Mp4Capabilities,
    pub issues: Vec<String>,
}

impl Default for Diagnostics {
    fn default() -> (d: Self)
        ensures
            !d.ffmpeg_ok,
            !d.ffprobe_ok,
            d.ffmpeg_version is None,
            d.ffprobe_version is None,
            d.mp4_capabilities.is_nothing(),
            d.mp4_capabilities.wf(),
            d.issues@.len() == 0,
    {
        Diagnostics {
            ffmpeg_ok: false,
            ffprobe_ok: false,
            ffmpeg_version: None,
            ffprobe_version: None,
            mp4_capabilities: Mp4Capabilities::default(),
            issues: Vec::new(),
        }
    }
}

/// The status line of a tool: its version line, else whether it is there.
pub open spec fn tool_line(name: Seq<char>, version: Option<String>, ok: bool) -> Seq<char> {
    name + ": "@ + match version {
        Some(v) => v@,
        None => if ok {
            "available"@
        } else {
            "missing"@
        },
    }
}

/// The labels of the offered encoders.
pub open spec fn choice_labels(c: Seq<Mp4EncoderChoice>) -> Seq<Seq<char>> {
    c.map_values(|x: Mp4EncoderChoice| x.label@)
}

/// The lines of the report, in order: ffmpeg, ffprobe, the preferred
/// encoder (when it is a known one), the offered encoders, the hardware
/// accelerations and the issues, each of the last three only when there is
/// something to list.
pub open spec fn summary_lines(d: Diagnostics) -> Seq<Seq<char>> {
    let caps = d.mp4_capabilities;
    seq![tool_line("ffmpeg"@, d.ffmpeg_version, d.ffmpeg_ok), tool_line("ffprobe"@, d.ffprobe_version, d.ffprobe_ok)]
        + (match caps.preferred_encoder {
        Some(p) => match known_entry(p@) {
            Some(k) => seq!["Preferred MP4 encoder: "@ + k.label@],
            None => Seq::empty(),
        },
        None => Seq::empty(),
    }) + (if caps.encoder_choices@.len() > 0 {
        seq!["Available MP4 encoders: "@ + join_with(choice_labels(caps.encoder_choices@), ", "@)]
    } else {
        Seq::empty()
    }) + (if caps.hardware_accels@.len() > 0 {
        seq!["ffmpeg hardware acceleration: "@ + join_with(texts(caps.hardware_accels@), ", "@)]
    } else {
        Seq::empty()
    }) + (if d.issues@.len() > 0 {
        seq!["Issues: "@ + join_with(texts(d.issues@), " | "@)]
    } else {
        Seq::empty()
    })
}

fn push_line(lines: &mut Vec<String>, line: String)
    ensures
        texts(final(lines)@) == texts(old(lines)@).push(line@),
{
    let ghost v = line@;
    lines.push(line);
    assert(texts(lines@) =~= texts(old(lines)@).push(v));
}

fn tool_status(name: &str, version: &Option<String>, ok: bool) -> (s: String)
    ensures
        s@ == tool_line(name@, *version, ok),
{
    let mut s = text_of(name);
    push_str(&mut s, ": ");
    match version {
        Some(v) => push_str(&mut s, v.as_str()),
        None => {
            if ok {
                push_str(&mut s, "available");
            } else {
                push_str(&mut s, "missing");
            }
        },
    }
    s
}

fn labels_of(choices: &Vec<Mp4EncoderChoice>) -> (v: Vec<String>)
    ensures
        texts(v@) == choice_labels(choices@),
{
    let mut v: Vec<String> = Vec::new();
    let mut i: usize = 0;
    while i < choices.len()
        invariant
            i <= choices@.len(),
            texts(v@) == choice_labels(choices@.take(i as int)),
        decreases choices@.len() - i,
    {
        push_line(&mut v, choices[i].label.clone());
        assert(choice_labels(choices@.take(i + 1)) =~= choice_labels(choices@.take(i as int)).push(choices@[i as int].label@));
        i += 1;
    }
    assert(choices@.take(choices@.len() as int) =~= choices@);
    v
}

fn prefixed(prefix: &str, rest: &str) -> (s: String)
    ensures
        s@ == prefix@ + rest@,
{
    let mut s = text_of(prefix);
    push_str(&mut s, rest);
    s
}

impl Diagnostics {
    /// The report as lines separated by newlines.
    pub fn summary(&self) -> (s: String)
        requires
            self.mp4_capabilities.wf(),
        ensures
            s@ == join_with(summary_lines(*self), "\n"@),
    {
        let caps = &self.mp4_capabilities;
        let mut lines: Vec<String> = Vec::new();
        assert(texts(lines@) =~= Seq::<Seq<char>>::empty());
        push_line(&mut lines, tool_status("ffmpeg", &self.ffmpeg_version, self.ffmpeg_ok));
        push_line(&mut lines, tool_status("ffprobe", &self.ffprobe_version, self.ffprobe_ok));
        let ghost l0 = texts(lines@);
        match &caps.preferred_encoder {
            Some(p) => match known_mp4_encoder_label(p.as_str()) {
                Some(label) => push_line(&mut lines, prefixed("Preferred MP4 encoder: ", label)),
                None => {},
            },
            None => {},
        }
        let ghost l1 = texts(lines@);
        if caps.encoder_choices.len() > 0 {
            let labels = labels_of(&caps.encoder_choices);
            let joined = join_strings(&labels, ", ");
            push_line(&mut lines, prefixed("Available MP4 encoders: ", joined.as_str()));
        }
        let ghost l2 = texts(lines@);
        if caps.hardware_accels.len() > 0 {
            let joined = join_strings(&caps.hardware_accels, ", ");
            push_line(&mut lines, prefixed("ffmpeg hardware acceleration: ", joined.as_str()));
        }
        let ghost l3 = texts(lines@);
        if self.issues.len() > 0 {
            let joined = join_strings(&self.issues, " | ");
            push_line(&mut lines, prefixed("Issues: ", joined.as_str()));
        }
        assert(texts(lines@) =~= summary_lines(*self));
        join_strings(&lines, "\n")
    }
}

/// The issue reported when ffmpeg is missing.
pub open spec fn missing_ffmpeg_issue() -> Seq<char> {
    "ffmpeg not found in PATH; export will be unavailable"@
}

/// The issue reported when ffmpeg offers no known MP4 encoder.
pub open spec fn no_encoder_issue() -> Seq<char> {
    "No supported MP4 encoders were detected in this ffmpeg build."@
}

/// The issue reported when ffprobe is missing.
pub open spec fn missing_ffprobe_issue() -> Seq<char> {
    "ffprobe not found in PATH; probe-based checks will be unavailable"@
}

/// The report for the version lines that `ffmpeg -version` and
/// `ffprobe -version` printed (none when a tool could not be run) and the
/// MP4 capabilities probed through ffmpeg. The capabilities count only
/// when ffmpeg is present; otherwise the report carries empty ones.
pub fn diagnostics_from(
    ffmpeg_version: Option<String>,
    ffprobe_version: Option<String>,
    mp4_capabilities: Mp4Capabilities,
) -> (d: Diagnostics)
    requires
        mp4_capabilities.wf(),
    ensures
        d.ffmpeg_ok == ffmpeg_version is Some,
        d.ffprobe_ok == ffprobe_version is Some,
        d.ffmpeg_version == ffmpeg_version,
        d.ffprobe_version == ffprobe_version,
        ffmpeg_version is Some ==> d.mp4_capabilities == mp4_capabilities,
        ffmpeg_version is None ==> d.mp4_capabilities.is_nothing(),
        d.mp4_capabilities.wf(),
        texts(d.issues@) == (if ffmpeg_version is None {
            seq![missing_ffmpeg_issue()]
        } else if mp4_capabilities.encoder_choices@.len() == 0 {
            seq![no_encoder_issue()]
        } else {
            Seq::empty()
        }) + (if ffprobe_version is None {
            seq![missing_ffprobe_issue()]
        } else {
            Seq::empty()
        }),
{
    let ffmpeg_ok = ffmpeg_version.is_some();
    let ffprobe_ok = ffprobe_version.is_some();
    let no_choices = mp4_capabilities.encoder_choices.len() == 0;
    let caps = if ffmpeg_ok {
        mp4_capabilities
    } else {
        Mp4Capabilities::default()
    };
    let mut issues: Vec<String> = Vec::new();
    assert(texts(issues@) =~= Seq::<Seq<char>>::empty());
    if !ffmpeg_ok {
        push_line(&mut issues, text_of("ffmpeg not found in PATH; export will be unavailable"));
    } else if no_choices {
        push_line(&mut issues, text_of("No supported MP4 encoders were detected in this ffmpeg build."));
    }
    let ghost first = texts(issues@);
    if !ffprobe_ok {
        push_line(&mut issues, text_of("ffprobe not found in PATH; probe-based checks will be unavailable"));
    }
    assert(texts(issues@) =~= first + (if ffprobe_version is None {
        seq![missing_ffprobe_issue()]
    } else {
        Seq::empty()
    }));
    Diagnostics {
        ffmpeg_ok,
        ffprobe_ok,
        ffmpeg_version,
        ffprobe_version,
        mp4_capabilities: caps,
        issues,
    }
}

} // verus!
