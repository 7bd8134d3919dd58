//! Reading what the installed tools report: the lines of their output,
//! the words of a line, ffmpeg's encoder and hardware acceleration
//! listings, and the render node to use, all kept as sorted sets of names.
use crate::text::{char_vec, push_char, texts, white_space};
use crate::types::path_file_name;
use vstd::prelude::*;

verus! {

// ---------------------------------------------------------------- lines

/// A line without the carriage return that ends it, if any.
pub open spec fn without_cr(l: Seq<char>) -> Seq<char> {
    if l.len() > 0 && l.last() == '\r' {
        l.drop_last()
    } else {
        l
    }
}

/// The finished lines and the line being read after the characters `t`.
pub open spec fn line_scan(t: Seq<char>) -> (Seq<Seq<char>>, Seq<char>)
    decreases t.len(),
{
    if t.len() == 0 {
        (Seq::empty(), Seq::empty())
    } else {
        let (done, cur) = line_scan(t.drop_last());
        if t.last() == '\n' {
            (done.push(without_cr(cur)), Seq::empty())
        } else {
            (done, cur.push(t.last()))
        }
    }
}

/// The lines of `t` as `str::lines` gives them: split at each `\n`, a
/// `\r` before it dropped, and no empty line after a final `\n`.
pub open spec fn lines_of(t: Seq<char>) -> Seq<Seq<char>> {
    let (done, cur) = line_scan(t);
    if cur.len() > 0 {
        done.push(cur)
    } else {
        done
    }
}

fn string_of(cs: &Vec<char>) -> (s: String)
    ensures
        s@ == cs@,
{
    let mut s = String::new();
    let mut i: usize = 0;
    while i < cs.len()
        invariant
            i <= cs@.len(),
            s@ == cs@.take(i as int),
        decreases cs@.len() - i,
    {
        push_char(&mut s, cs[i]);
        assert(s@ =~= cs@.take(i + 1));
        i += 1;
    }
    assert(cs@.take(cs@.len() as int) =~= cs@);
    s
}

/// The lines of `text`.
pub fn split_lines(text: &str) -> (lines: Vec<String>)
    ensures
        texts(lines@) == lines_of(text@),
{
    let cs = char_vec(text);
    let mut lines: Vec<String> = Vec::new();
    let mut cur: Vec<char> = Vec::new();
    let mut i: usize = 0;
    while i < cs.len()
        invariant
            i <= cs@.len(),
            cs@ == text@,
            (texts(lines@), cur@) == line_scan(cs@.take(i as int)),
        decreases cs@.len() - i,
    {
        proof {
            assert(cs@.take(i + 1).drop_last() =~= cs@.take(i as int));
        }
        let c = cs[i];
        if c == '\n' {
            if cur.len() > 0 && cur[cur.len() - 1] == '\r' {
                cur.pop();
            }
            let ghost before = texts(lines@);
            let line = string_of(&cur);
            lines.push(line);
            assert(texts(lines@) =~= before.push(cur@));
            cur = Vec::new();
        } else {
            cur.push(c);
        }
        i += 1;
    }
    assert(cs@.take(cs@.len() as int) =~= cs@);
    if cur.len() > 0 {
        let ghost before = texts(lines@);
        let line = string_of(&cur);
        lines.push(line);
        assert(texts(lines@) =~= before.push(cur@));
    }
    lines
}

/// The first line of `text`, as a command's version banner is read.
pub fn first_line(text: &str) -> (r: Option<String>)
    ensures
        match r {
            Some(l) => lines_of(text@).len() > 0 && l@ == lines_of(text@)[0],
            None => lines_of(text@).len() == 0,
        },
{
    let lines = split_lines(text);
    if lines.len() > 0 {
        assert(texts(lines@)[0] == lines@[0]@);
        Some(lines[0].clone())
    } else {
        None
    }
}

// ---------------------------------------------------------------- words

/// The finished words and the word being read after the characters `t`.
pub open spec fn word_scan(t: Seq<char>) -> (Seq<Seq<char>>, Seq<char>)
    decreases t.len(),
{
    if t.len() == 0 {
        (Seq::empty(), Seq::empty())
    } else {
        let (done, cur) = word_scan(t.drop_last());
        if white_space(t.last()) {
            if cur.len() > 0 {
                (done.push(cur), Seq::empty())
            } else {
                (done, Seq::empty())
            }
        } else {
            (done, cur.push(t.last()))
        }
    }
}

/// The words of `t` as `str::split_whitespace` gives them: the non-empty
/// runs between white space.
pub open spec fn words_of(t: Seq<char>) -> Seq<Seq<char>> {
    let (done, cur) = word_scan(t);
    if cur.len() > 0 {
        done.push(cur)
    } else {
        done
    }
}

/// The words of `text`.
pub fn split_words(text: &str) -> (words: Vec<String>)
    ensures
        texts(words@) == words_of(text@),
{
    let cs = char_vec(text);
    let mut words: Vec<String> = Vec::new();
    let mut cur: Vec<char> = Vec::new();
    let mut i: usize = 0;
    while i < cs.len()
        invariant
            i <= cs@.len(),
            cs@ == text@,
            (texts(words@), cur@) == word_scan(cs@.take(i as int)),
        decreases cs@.len() - i,
    {
        proof {
            assert(cs@.take(i + 1).drop_last() =~= cs@.take(i as int));
        }
        let c = cs[i];
        if crate::text::is_white_space(c) {
            if cur.len() > 0 {
                let ghost before = texts(words@);
                let w = string_of(&cur);
                words.push(w);
                assert(texts(words@) =~= before.push(cur@));
            }
            cur = Vec::new();
        } else {
            cur.push(c);
        }
        i += 1;
    }
    assert(cs@.take(cs@.len() as int) =~= cs@);
    if cur.len() > 0 {
        let ghost before = texts(words@);
        let w = string_of(&cur);
        words.push(w);
        assert(texts(words@) =~= before.push(cur@));
    }
    words
}

// ---------------------------------------------------------------- order

/// The order of strings: character codes compared from the start, a
/// proper prefix first (the order of `String`).
pub open spec fn lex_lt(a: Seq<char>, b: Seq<char>) -> bool
    decreases a.len(),
{
    if a.len() == 0 {
        b.len() > 0
    } else if b.len() == 0 {
        false
    } else if a[0] != b[0] {
        a[0] < b[0]
    } else {
        lex_lt(a.drop_first(), b.drop_first())
    }
}

/// The order is strict, total and transitive.
pub proof fn lemma_lex_order(a: Seq<char>, b: Seq<char>, c: Seq<char>)
    ensures
        !lex_lt(a, a),
        lex_lt(a, b) ==> !lex_lt(b, a),
        a != b ==> lex_lt(a, b) || lex_lt(b, a),
        lex_lt(a, b) && lex_lt(b, c) ==> lex_lt(a, c),
{
    lemma_lex_irreflexive(a);
    lemma_lex_asymmetric(a, b);
    lemma_lex_total(a, b);
    lemma_lex_transitive(a, b, c);
}

proof fn lemma_lex_irreflexive(a: Seq<char>)
    ensures
        !lex_lt(a, a),
    decreases a.len(),
{
    if a.len() > 0 {
        lemma_lex_irreflexive(a.drop_first());
    }
}

proof fn lemma_lex_asymmetric(a: Seq<char>, b: Seq<char>)
    ensures
        lex_lt(a, b) ==> !lex_lt(b, a),
    decreases a.len(),
{
    if a.len() > 0 && b.len() > 0 && a[0] == b[0] {
        lemma_lex_asymmetric(a.drop_first(), b.drop_first());
    }
}

proof fn lemma_lex_total(a: Seq<char>, b: Seq<char>)
    ensures
        a != b ==> lex_lt(a, b) || lex_lt(b, a),
    decreases a.len(),
{
    if a.len() > 0 && b.len() > 0 {
        if a[0] == b[0] {
            lemma_lex_total(a.drop_first(), b.drop_first());
            if a != b {
                assert(a =~= seq![a[0]] + a.drop_first());
                assert(b =~= seq![b[0]] + b.drop_first());
            }
        }
    } else if a.len() == 0 && b.len() == 0 {
        assert(a =~= b);
    }
}

proof fn lemma_lex_transitive(a: Seq<char>, b: Seq<char>, c: Seq<char>)
    ensures
        lex_lt(a, b) && lex_lt(b, c) ==> lex_lt(a, c),
    decreases a.len(),
{
    if a.len() > 0 && b.len() > 0 && c.len() > 0 {
        lemma_lex_transitive(a.drop_first(), b.drop_first(), c.drop_first());
    }
}

fn text_lt(a: &Vec<char>, b: &Vec<char>) -> (r: bool)
    ensures
        r == lex_lt(a@, b@),
{
    let mut i: usize = 0;
    assert(a@.skip(0) =~= a@);
    assert(b@.skip(0) =~= b@);
    while i < a.len() && i < b.len() && a[i] == b[i]
        invariant
            i <= a@.len(),
            i <= b@.len(),
            lex_lt(a@, b@) == lex_lt(a@.skip(i as int), b@.skip(i as int)),
        decreases a@.len() - i,
    {
        assert(a@.skip(i as int).drop_first() =~= a@.skip(i + 1));
        assert(b@.skip(i as int).drop_first() =~= b@.skip(i + 1));
        i += 1;
    }
    if i == a.len() {
        i < b.len()
    } else if i == b.len() {
        false
    } else {
        a[i] < b[i]
    }
}

/// Each name is before the next: the names in order, each once.
pub open spec fn strictly_sorted(s: Seq<Seq<char>>) -> bool {
    forall|i: int, j: int| 0 <= i < j < s.len() ==> lex_lt(#[trigger] s[i], #[trigger] s[j])
}

/// Adds a name to a sorted list of names unless it is there already.
fn insert_name(v: &mut Vec<String>, name: String)
    requires
        strictly_sorted(texts(old(v)@)),
    ensures
        strictly_sorted(texts(final(v)@)),
        texts(final(v)@).to_set() == texts(old(v)@).to_set().insert(name@),
{
    let ghost before = texts(v@);
    let nc = char_vec(name.as_str());
    let mut p: usize = 0;
    while p < v.len()
        invariant
            p <= v@.len(),
            v@ == old(v)@,
            nc@ == name@,
            before == texts(v@),
            strictly_sorted(before),
            forall|k: int| 0 <= k < p ==> lex_lt(#[trigger] before[k], name@),
        ensures
            p <= v@.len(),
            v@ == old(v)@,
            nc@ == name@,
            before == texts(v@),
            forall|k: int| 0 <= k < p ==> lex_lt(#[trigger] before[k], name@),
            p < v@.len() ==> !lex_lt(before[p as int], name@),
        decreases v@.len() - p,
    {
        let cur = char_vec(v[p].as_str());
        assert(before[p as int] == v@[p as int]@);
        if !text_lt(&cur, &nc) {
            break;
        }
        p += 1;
    }
    if p < v.len() {
        let cur = char_vec(v[p].as_str());
        assert(before[p as int] == v@[p as int]@);
        if !text_lt(&nc, &cur) {
            proof {
                lemma_lex_order(name@, before[p as int], name@);
                assert(name@ == before[p as int]);
                assert(before.to_set().insert(name@) =~= before.to_set());
            }
            return;
        }
    }
    proof {
        assert forall|k: int| p <= k < before.len() implies lex_lt(name@, #[trigger] before[k]) by {
            if k > p {
                lemma_lex_order(name@, before[p as int], before[k]);
            }
        }
    }
    v.insert(p, name);
    let ghost after = texts(v@);
    assert(after =~= before.insert(p as int, name@));
    proof {
        assert forall|i: int, j: int| 0 <= i < j < after.len() implies lex_lt(#[trigger] after[i], #[trigger] after[j]) by {
            if j < p {
            } else if j == p {
            } else if i < p {
                lemma_lex_order(before[i], name@, before[j - 1]);
            } else if i == p {
            } else {
            }
        }
        assert forall|x: Seq<char>| after.to_set().contains(x) <==> before.to_set().insert(name@).contains(x) by {
            if after.to_set().contains(x) {
                let w = choose|w: int| 0 <= w < after.len() && after[w] == x;
                if w < p {
                    assert(before[w] == x);
                } else if w > p {
                    assert(before[w - 1] == x);
                }
            }
            if before.to_set().contains(x) {
                let w = choose|w: int| 0 <= w < before.len() && before[w] == x;
                if w < p {
                    assert(after[w] == x);
                } else {
                    assert(after[w + 1] == x);
                }
            }
            if x == name@ {
                assert(after[p as int] == x);
            }
        }
        assert(after.to_set() =~= before.to_set().insert(name@));
    }
}

// ---------------------------------------------------------------- ffmpeg

/// The second word of each line that has one.
pub open spec fn second_words(lines: Seq<Seq<char>>) -> Seq<Seq<char>>
    decreases lines.len(),
{
    if lines.len() == 0 {
        Seq::empty()
    } else if words_of(lines.last()).len() > 1 {
        second_words(lines.drop_last()).push(words_of(lines.last())[1])
    } else {
        second_words(lines.drop_last())
    }
}

/// The encoder names in the output of `ffmpeg -encoders`: the second word
/// of every line, in order, each once.
pub fn encoder_names_from_listing(listing: &str) -> (names: Vec<String>)
    ensures
        strictly_sorted(texts(names@)),
        texts(names@).to_set() == second_words(lines_of(listing@)).to_set(),
{
    let lines = split_lines(listing);
    let ghost ls = texts(lines@);
    let mut names: Vec<String> = Vec::new();
    let mut i: usize = 0;
    while i < lines.len()
        invariant
            i <= lines@.len(),
            ls == texts(lines@),
            ls == lines_of(listing@),
            strictly_sorted(texts(names@)),
            texts(names@).to_set() == second_words(ls.take(i as int)).to_set(),
        decreases lines@.len() - i,
    {
        proof {
            assert(ls.take(i + 1).drop_last() =~= ls.take(i as int));
            assert(ls.take(i + 1).last() == lines@[i as int]@);
        }
        let words = split_words(lines[i].as_str());
        if words.len() > 1 {
            let w = words[1].clone();
            assert(texts(words@)[1] == words@[1]@);
            let ghost prev = second_words(ls.take(i as int));
            insert_name(&mut names, w);
            proof {
                prev.lemma_push_to_set_commute(words@[1]@);
            }
        }
        i += 1;
    }
    assert(ls.take(ls.len() as int) =~= ls);
    names
}

/// Whether `s` begins with `p`.
pub open spec fn starts_with(s: Seq<char>, p: Seq<char>) -> bool {
    p.len() <= s.len() && s.take(p.len() as int) == p
}

/// The heading ffmpeg prints before its hardware accelerations.
pub open spec fn accel_heading() -> Seq<char> {
    "Hardware acceleration methods"@
}

/// The trimmed, non-empty lines after the first line that, trimmed,
/// begins with the heading; and whether the heading was seen.
pub open spec fn accel_scan(lines: Seq<Seq<char>>) -> (Seq<Seq<char>>, bool)
    decreases lines.len(),
{
    if lines.len() == 0 {
        (Seq::empty(), false)
    } else {
        let (found, seen) = accel_scan(lines.drop_last());
        let t = crate::text::trimmed(lines.last());
        if seen {
            (if t.len() > 0 {
                found.push(t)
            } else {
                found
            }, true)
        } else {
            (found, starts_with(t, accel_heading()))
        }
    }
}

fn begins_with(s: &str, p: &str) -> (r: bool)
    ensures
        r == starts_with(s@, p@),
{
    let sc = char_vec(s);
    let pc = char_vec(p);
    if pc.len() > sc.len() {
        return false;
    }
    let mut i: usize = 0;
    while i < pc.len()
        invariant
            i <= pc@.len() <= sc@.len(),
            sc@ == s@,
            pc@ == p@,
            forall|k: int| 0 <= k < i ==> sc@[k] == pc@[k],
        decreases pc@.len() - i,
    {
        if sc[i] != pc[i] {
            assert(s@.take(p@.len() as int)[i as int] != p@[i as int]);
            return false;
        }
        i += 1;
    }
    assert(s@.take(p@.len() as int) =~= p@);
    true
}

/// The hardware accelerations in the output of `ffmpeg -hwaccels`: the
/// trimmed, non-empty lines after the heading, in order, each once.
pub fn hardware_accels_from_listing(listing: &str) -> (names: Vec<String>)
    ensures
        strictly_sorted(texts(names@)),
        texts(names@).to_set() == accel_scan(lines_of(listing@)).0.to_set(),
{
    let lines = split_lines(listing);
    let ghost ls = texts(lines@);
    let mut names: Vec<String> = Vec::new();
    let mut seen = false;
    let mut i: usize = 0;
    while i < lines.len()
        invariant
            i <= lines@.len(),
            ls == texts(lines@),
            strictly_sorted(texts(names@)),
            texts(names@).to_set() == accel_scan(ls.take(i as int)).0.to_set(),
            seen == accel_scan(ls.take(i as int)).1,
        decreases lines@.len() - i,
    {
        proof {
            assert(ls.take(i + 1).drop_last() =~= ls.take(i as int));
            assert(ls.take(i + 1).last() == lines@[i as int]@);
        }
        let t = crate::text::trim_text(lines[i].as_str());
        if seen {
            if !t.as_str().is_empty() {
                let ghost prev = accel_scan(ls.take(i as int)).0;
                let ghost tv = t@;
                insert_name(&mut names, t);
                proof {
                    prev.lemma_push_to_set_commute(tv);
                }
            }
        } else {
            seen = begins_with(t.as_str(), "Hardware acceleration methods");
        }
        i += 1;
    }
    assert(ls.take(ls.len() as int) =~= ls);
    names
}

// ---------------------------------------------------------------- devices

/// Whether a device path names a DRM render node.
pub open spec fn is_render_node(path: Seq<char>) -> bool {
    match path_file_name(path) {
        Some(n) => starts_with(n, "renderD"@),
        None => false,
    }
}

/// The render node to use among the entries of `/dev/dri`: the first, in
/// the order of names, of those whose file name begins with `renderD`.
pub fn first_render_node(entries: Vec<String>) -> (r: Option<String>)
    ensures
        match r {
            Some(n) => {
                &&& texts(entries@).contains(n@)
                &&& is_render_node(n@)
                &&& forall|i: int|
                    0 <= i < entries@.len() && is_render_node(#[trigger] entries@[i]@) ==> entries@[i]@ == n@ || lex_lt(
                        n@,
                        entries@[i]@,
                    )
            },
            None => forall|i: int| 0 <= i < entries@.len() ==> !is_render_node(#[trigger] entries@[i]@),
        },
{
    let mut best: Option<String> = None;
    let mut i: usize = 0;
    while i < entries.len()
        invariant
            i <= entries@.len(),
            match best {
                Some(n) => {
                    &&& texts(entries@).contains(n@)
                    &&& is_render_node(n@)
                    &&& forall|k: int|
                        0 <= k < i && is_render_node(#[trigger] entries@[k]@) ==> entries@[k]@ == n@ || lex_lt(
                            n@,
                            entries@[k]@,
                        )
                },
                None => forall|k: int| 0 <= k < i ==> !is_render_node(#[trigger] entries@[k]@),
            },
        decreases entries@.len() - i,
    {
        let name = crate::types::std_path_file_name(entries[i].as_str());
        let node = match name {
            Some(n) => begins_with(n.as_str(), "renderD"),
            None => false,
        };
        if node {
            assert(texts(entries@)[i as int] == entries@[i as int]@);
            let take = match &best {
                None => true,
                Some(b) => {
                    let bc = char_vec(b.as_str());
                    let ec = char_vec(entries[i].as_str());
                    text_lt(&ec, &bc)
                },
            };
            if take {
                proof {
                    if let Some(b) = best {
                        assert forall|k: int|
                            0 <= k < i + 1 && is_render_node(#[trigger] entries@[k]@) implies entries@[k]@
                            == entries@[i as int]@ || lex_lt(entries@[i as int]@, entries@[k]@) by {
                            if k < i && entries@[k]@ != entries@[i as int]@ {
                                lemma_lex_order(entries@[i as int]@, b@, entries@[k]@);
                            }
                        }
                    }
                }
                best = Some(entries[i].clone());
            } else {
                proof {
                    let b = best->0;
                    lemma_lex_order(b@, entries@[i as int]@, b@);
                }
            }
        }
        i += 1;
    }
    best
}

} // verus!
