//! Where the editor keeps its files, and which dropped files it imports.
use crate::export::{path_extension, std_path_extension};
use crate::probe::{lines_of, split_lines};
use crate::text::{char_vec, decimal, decimal_string, push_str, text_of, texts, trim_text, trimmed};
use crate::types::{path_file_name, std_path_file_name};
use vstd::prelude::*;

verus! {

/// What `Path::join` gives on Unix: an absolute part replaces the base;
/// otherwise the part is appended, after a `/` unless the base is empty or
/// already ends with one.
pub open spec fn path_joined(base: Seq<char>, part: Seq<char>) -> Seq<char> {
    if part.len() > 0 && part[0] == '/' {
        part
    } else if base.len() == 0 || base.last() == '/' {
        base + part
    } else {
        base + "/"@ + part
    }
}

/// Calls `std::path::Path::join` (`PathBuf::push` on a copy of the base).
/// The result is claimed to be `path_joined` of the two, as the Unix rules
/// of `PathBuf::push` give it.
#[verifier::external_body]
fn std_path_join(base: &str, part: &str) -> (r: String)
    ensures
        r@ == path_joined(base@, part@),
{
    std::path::Path::new(base).join(part).to_string_lossy().into_owned()
}

/// What `Path::with_file_name` gives for a path and a new last component.
pub uninterp spec fn path_with_file_name(path: Seq<char>, name: Seq<char>) -> Seq<char>;

/// Calls `std::path::Path::with_file_name`. The result is claimed to be
/// `path_with_file_name` of the two; nothing more is stated of it.
#[verifier::external_body]
fn std_path_with_file_name(path: &str, name: &str) -> (r: String)
    ensures
        r@ == path_with_file_name(path@, name@),
{
    std::path::Path::new(path).with_file_name(name).to_string_lossy().into_owned()
}

/// `root/awebpinator/<file>`.
pub open spec fn app_file(root: Seq<char>, file: Seq<char>) -> Seq<char> {
    path_joined(path_joined(root, "awebpinator"@), file)
}

fn app_file_path(root: &str, file: &str) -> (r: String)
    ensures
        r@ == app_file(root@, file@),
{
    let dir = std_path_join(root, "awebpinator");
    std_path_join(dir.as_str(), file)
}

/// The configuration directory: `$XDG_CONFIG_HOME`, else `$HOME/.config`.
pub open spec fn config_root(config_home: Option<String>, home: Option<String>) -> Option<Seq<char>> {
    match config_home {
        Some(c) => Some(c@),
        None => match home {
            Some(h) => Some(path_joined(h@, ".config"@)),
            None => None,
        },
    }
}

/// The file that holds the editor's UI preferences, given the values of
/// `XDG_CONFIG_HOME` and `HOME`.
pub fn preferences_path(config_home: Option<String>, home: Option<String>) -> (r: Option<String>)
    ensures
        match config_root(config_home, home) {
            Some(root) => r is Some && r->0@ == app_file(root, "ui-preferences.json"@),
            None => r is None,
        },
{
    let root = match config_home {
        Some(c) => c,
        None => match home {
            Some(h) => std_path_join(h.as_str(), ".config"),
            None => {
                return None;
            },
        },
    };
    Some(app_file_path(root.as_str(), "ui-preferences.json"))
}

/// The state directory: `$XDG_STATE_HOME`, else `$XDG_CONFIG_HOME`, else
/// `$HOME/.local/state`.
pub open spec fn state_root(state_home: Option<String>, config_home: Option<String>, home: Option<String>) -> Option<Seq<char>> {
    match state_home {
        Some(s) => Some(s@),
        None => match config_home {
            Some(c) => Some(c@),
            None => match home {
                Some(h) => Some(path_joined(h@, ".local/state"@)),
                None => None,
            },
        },
    }
}

/// The file the session is saved to on close, given the values of
/// `XDG_STATE_HOME`, `XDG_CONFIG_HOME` and `HOME`.
pub fn autosave_project_path(state_home: Option<String>, config_home: Option<String>, home: Option<String>) -> (r: Option<String>)
    ensures
        match state_root(state_home, config_home, home) {
            Some(root) => r is Some && r->0@ == app_file(root, "autosave.awebp.json"@),
            None => r is None,
        },
{
    let root = match state_home {
        Some(s) => s,
        None => match config_home {
            Some(c) => c,
            None => match home {
                Some(h) => std_path_join(h.as_str(), ".local/state"),
                None => {
                    return None;
                },
            },
        },
    };
    Some(app_file_path(root.as_str(), "autosave.awebp.json"))
}

/// The name a preview is first written under before it is moved into
/// place: `.<name>.<suffix>.tmp` next to the target, where `<name>` is the
/// target's file name (`preview.png` when it has none).
pub open spec fn temporary_name(target: Seq<char>, suffix: u64) -> Seq<char> {
    let name = match path_file_name(target) {
        Some(n) => n,
        None => "preview.png"@,
    };
    "."@ + name + "."@ + decimal(suffix as nat) + ".tmp"@
}

pub fn temporary_preview_path(target_path: &str, suffix: u64) -> (r: String)
    ensures
        r@ == path_with_file_name(target_path@, temporary_name(target_path@, suffix)),
{
    let name = match std_path_file_name(target_path) {
        Some(n) => n,
        None => text_of("preview.png"),
    };
    let mut tmp = text_of(".");
    push_str(&mut tmp, name.as_str());
    push_str(&mut tmp, ".");
    let digits = decimal_string(suffix);
    push_str(&mut tmp, digits.as_str());
    push_str(&mut tmp, ".tmp");
    std_path_with_file_name(target_path, tmp.as_str())
}

/// Whether `a`, with an ASCII upper-case letter put in lower case, is `b`.
pub open spec fn lowers_to(a: char, b: char) -> bool {
    if 'A' <= a && a <= 'Z' {
        (a as u32) + 32 == (b as u32)
    } else {
        a == b
    }
}

/// Whether `a` equals `b` once ASCII letters of `a` are put in lower case
/// (`b` holds no upper-case ASCII letter).
pub open spec fn matches_lowered(a: Seq<char>, b: Seq<char>) -> bool {
    a.len() == b.len() && forall|i: int| 0 <= i < a.len() ==> lowers_to(#[trigger] a[i], b[i])
}

/// The extensions of importable images.
pub open spec fn image_extension(e: Seq<char>) -> bool {
    ||| matches_lowered(e, "png"@)
    ||| matches_lowered(e, "jpg"@)
    ||| matches_lowered(e, "jpeg"@)
    ||| matches_lowered(e, "webp"@)
    ||| matches_lowered(e, "bmp"@)
    ||| matches_lowered(e, "gif"@)
    ||| matches_lowered(e, "tif"@)
    ||| matches_lowered(e, "tiff"@)
}

fn lowered_equals(a: &Vec<char>, b: &str) -> (r: bool)
    ensures
        r == matches_lowered(a@, b@),
{
    let bv = char_vec(b);
    if a.len() != bv.len() {
        return false;
    }
    let mut i: usize = 0;
    while i < a.len()
        invariant
            i <= a@.len(),
            a@.len() == bv@.len(),
            bv@ == b@,
            forall|k: int| 0 <= k < i ==> lowers_to(#[trigger] a@[k], bv@[k]),
        decreases a@.len() - i,
    {
        let c = a[i];
        let d = bv[i];
        let same = if 'A' <= c && c <= 'Z' {
            (c as u32) + 32 == (d as u32)
        } else {
            c == d
        };
        if !same {
            return false;
        }
        i += 1;
    }
    true
}

/// Whether a path names an image the editor imports, by its extension.
pub open spec fn is_image_path(path: Seq<char>) -> bool {
    match path_extension(path) {
        Some(e) => image_extension(e),
        None => false,
    }
}

fn image_path(path: &str) -> (b: bool)
    ensures
        b == is_image_path(path@),
{
    match std_path_extension(path) {
        Some(e) => {
            let cs = char_vec(e.as_str());
            lowered_equals(&cs, "png") || lowered_equals(&cs, "jpg") || lowered_equals(&cs, "jpeg")
                || lowered_equals(&cs, "webp") || lowered_equals(&cs, "bmp") || lowered_equals(&cs, "gif")
                || lowered_equals(&cs, "tif") || lowered_equals(&cs, "tiff")
        },
        None => false,
    }
}

/// The paths that name images, in order.
pub open spec fn image_paths(paths: Seq<String>) -> Seq<String>
    decreases paths.len(),
{
    if paths.len() == 0 {
        paths
    } else if is_image_path(paths.last()@) {
        image_paths(paths.drop_last()).push(paths.last())
    } else {
        image_paths(paths.drop_last())
    }
}

/// Keeps the paths whose extension is that of a supported image.
pub fn filter_image_paths(paths: Vec<String>) -> (r: Vec<String>)
    ensures
        r@ == image_paths(paths@),
{
    let mut r: Vec<String> = Vec::new();
    let mut i: usize = 0;
    while i < paths.len()
        invariant
            i <= paths@.len(),
            r@ == image_paths(paths@.take(i as int)),
        decreases paths@.len() - i,
    {
        proof {
            assert(paths@.take(i + 1).drop_last() =~= paths@.take(i as int));
        }
        if image_path(paths[i].as_str()) {
            r.push(paths[i].clone());
        }
        i += 1;
    }
    assert(paths@.take(paths@.len() as int) =~= paths@);
    r
}

/// Filtering never gives more paths than it was handed.
pub proof fn lemma_image_paths_len(paths: Seq<String>)
    ensures
        image_paths(paths).len() <= paths.len(),
    decreases paths.len(),
{
    if paths.len() > 0 {
        lemma_image_paths_len(paths.drop_last());
    }
}

/// The editor's UI preferences, kept in the file `preferences_path` names.
#[derive(Debug, Clone, Copy, PartialEq, Eq, Structural)]
pub struct UiPreferences {
    /// Whether the advanced controls are shown.
    pub advanced_mode: bool,
}

impl Default for UiPreferences {
    /// Advanced controls start hidden.
    fn default() -> (p: Self)
        ensures
            !p.advanced_mode,
    {
        UiPreferences { advanced_mode: false }
    }
}

/// The entries of a `text/uri-list`: its lines, trimmed, without blank
/// lines and `#` comments.
pub open spec fn uri_entries(lines: Seq<Seq<char>>) -> Seq<Seq<char>>
    decreases lines.len(),
{
    if lines.len() == 0 {
        Seq::empty()
    } else {
        let rest = uri_entries(lines.drop_last());
        let t = trimmed(lines.last());
        if t.len() == 0 || t[0] == '#' {
            rest
        } else {
            rest.push(t)
        }
    }
}

/// The entries of a dropped `text/uri-list`, in order.
pub fn uri_list_entries(text: &str) -> (entries: Vec<String>)
    ensures
        texts(entries@) == uri_entries(lines_of(text@)),
{
    let lines = split_lines(text);
    let ghost ls = texts(lines@);
    let mut entries: Vec<String> = Vec::new();
    let mut i: usize = 0;
    while i < lines.len()
        invariant
            i <= lines@.len(),
            ls == texts(lines@),
            ls == lines_of(text@),
            texts(entries@) == uri_entries(ls.take(i as int)),
        decreases lines@.len() - i,
    {
        let t = trim_text(lines[i].as_str());
        proof {
            assert(ls.take(i + 1).drop_last() =~= ls.take(i as int));
            assert(ls.take(i + 1).last() == lines@[i as int]@);
        }
        let cs = char_vec(t.as_str());
        if cs.len() > 0 && cs[0] != '#' {
            entries.push(t);
            assert(texts(entries@) =~= uri_entries(ls.take(i as int)).push(trimmed(lines@[i as int]@)));
        }
        i += 1;
    }
    assert(ls.take(lines@.len() as int) =~= ls);
    entries
}

} // verus!
