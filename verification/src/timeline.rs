//! The ordered list of frames and the edits made on it: import, duplicate,
//! paste, remove, reorder, durations and loop building.
use crate::types::{CropRect, FrameItem};
use crate::ui::{quick_crop, CropAnchor, CropPreset, InspectorValues};
use crate::ui::crop_rect_for_frame;
use std::collections::BTreeSet;
use vstd::prelude::*;

verus! {

broadcast use {vstd::std_specs::btree::group_btree_axioms, vstd::laws_cmp::group_laws_cmp};

/// The frames of a project in playback order, and the id the next new frame
/// receives.
#[derive(Debug)]
pub struct Timeline {
    frames: Vec<FrameItem>,
    next_id: u64,
}

impl View for Timeline {
    type V = Seq<FrameItem>;

    closed spec fn view(&self) -> Seq<FrameItem> {
        self.frames@
    }
}

/// The ids of the frames, in order.
pub open spec fn frame_ids(s: Seq<FrameItem>) -> Seq<u64> {
    s.map_values(|f: FrameItem| f.id)
}

/// The largest id among the frames (zero when there are none).
pub open spec fn max_frame_id(s: Seq<FrameItem>) -> u64
    decreases s.len(),
{
    if s.len() == 0 {
        0
    } else {
        let m = max_frame_id(s.drop_last());
        if s.last().id > m {
            s.last().id
        } else {
            m
        }
    }
}

/// The `n` consecutive ids starting at `first`.
pub open spec fn fresh_ids(first: u64, n: nat) -> Seq<u64> {
    Seq::new(n, |i: int| (first + i) as u64)
}

/// Frames freshly imported from `paths`, numbered from `first`.
pub open spec fn imported_frames(paths: Seq<String>, first: u64) -> Seq<FrameItem> {
    Seq::new(paths.len(), |i: int| FrameItem::imported((first + i) as u64, paths[i]))
}

/// Copies of `src`, numbered from `first`.
pub open spec fn relabeled(src: Seq<FrameItem>, first: u64) -> Seq<FrameItem> {
    Seq::new(src.len(), |i: int| src[i].with_id((first + i) as u64))
}

/// The frames whose id is in `sel`, in order.
pub open spec fn chosen(s: Seq<FrameItem>, sel: Set<u64>) -> Seq<FrameItem>
    decreases s.len(),
{
    if s.len() == 0 {
        s
    } else if sel.contains(s.last().id) {
        chosen(s.drop_last(), sel).push(s.last())
    } else {
        chosen(s.drop_last(), sel)
    }
}

/// The frames whose id is not in `sel`, in order.
pub open spec fn kept(s: Seq<FrameItem>, sel: Set<u64>) -> Seq<FrameItem>
    decreases s.len(),
{
    if s.len() == 0 {
        s
    } else if sel.contains(s.last().id) {
        kept(s.drop_last(), sel)
    } else {
        kept(s.drop_last(), sel).push(s.last())
    }
}

/// The positions of the frames whose id is in `sel`, in increasing order.
pub open spec fn selected_positions(sel: Set<u64>, s: Seq<FrameItem>) -> Seq<int>
    decreases s.len(),
{
    if s.len() == 0 {
        Seq::empty()
    } else if sel.contains(s.last().id) {
        selected_positions(sel, s.drop_last()).push(s.len() - 1)
    } else {
        selected_positions(sel, s.drop_last())
    }
}

/// The position of the last frame whose id is in `sel`.
pub open spec fn last_selected_position(sel: Set<u64>, s: Seq<FrameItem>) -> Option<int>
    decreases s.len(),
{
    if s.len() == 0 {
        None
    } else if sel.contains(s.last().id) {
        Some(s.len() - 1)
    } else {
        last_selected_position(sel, s.drop_last())
    }
}

/// The timeline after duplicating the selected frames: each copy, numbered
/// from `first` in timeline order, directly follows its original.
pub open spec fn duplicated(s: Seq<FrameItem>, sel: Set<u64>, first: u64) -> Seq<FrameItem>
    decreases s.len(),
{
    if s.len() == 0 {
        s
    } else {
        let p = s.drop_last();
        let f = s.last();
        if sel.contains(f.id) {
            duplicated(p, sel, first).push(f).push(f.with_id((first + chosen(p, sel).len()) as u64))
        } else {
            duplicated(p, sel, first).push(f)
        }
    }
}

/// Scans the frames from the left, holding back the latest unselected frame
/// until the run of selected frames after it has been emitted.
pub open spec fn up_scan(s: Seq<FrameItem>, sel: Set<u64>) -> (Seq<FrameItem>, Option<FrameItem>)
    decreases s.len(),
{
    if s.len() == 0 {
        (s, None)
    } else {
        let (out, held) = up_scan(s.drop_last(), sel);
        let f = s.last();
        if sel.contains(f.id) {
            (out.push(f), held)
        } else {
            (
                match held {
                    Some(u) => out.push(u),
                    None => out,
                },
                Some(f),
            )
        }
    }
}

/// The timeline after moving the selection up: every run of selected frames
/// that has an unselected frame right before it trades places with that
/// frame.
pub open spec fn moved_up(s: Seq<FrameItem>, sel: Set<u64>) -> Seq<FrameItem> {
    let (out, held) = up_scan(s, sel);
    match held {
        Some(u) => out.push(u),
        None => out,
    }
}

/// The timeline after moving the selection down: the mirror image of
/// `moved_up`.
pub open spec fn moved_down(s: Seq<FrameItem>, sel: Set<u64>) -> Seq<FrameItem> {
    moved_up(s.reverse(), sel).reverse()
}

/// The timeline with the duration of the selected frames set to `d`.
pub open spec fn with_duration(s: Seq<FrameItem>, sel: Set<u64>, d: u32) -> Seq<FrameItem> {
    Seq::new(
        s.len(),
        |i: int|
            if sel.contains(s[i].id) {
                FrameItem { duration_ms: d, ..s[i] }
            } else {
                s[i]
            },
    )
}

/// The frames a loop is built from: the selected ones, or all of them when
/// nothing is selected.
pub open spec fn loop_source(s: Seq<FrameItem>, sel: Set<u64>) -> Seq<FrameItem> {
    if sel.is_empty() {
        s
    } else {
        chosen(s, sel)
    }
}

/// The loop source played backwards; without `repeat_edges` its first and
/// last frames are left out (when it has more than one).
pub open spec fn reverse_source(s: Seq<FrameItem>, sel: Set<u64>, repeat_edges: bool) -> Seq<FrameItem> {
    let src = loop_source(s, sel);
    let trimmed = if !repeat_edges && src.len() > 1 {
        src.subrange(1, src.len() - 1)
    } else {
        src
    };
    trimmed.reverse()
}

/// Whether `f` belongs to the loop source of `sel`: the selected frames,
/// or every frame when nothing is selected.
pub open spec fn in_loop(sel: Set<u64>, f: FrameItem) -> bool {
    sel.is_empty() || sel.contains(f.id)
}

/// Whether position `i` holds the first or the last frame of the loop
/// source of `sel`.
pub open spec fn loop_end(s: Seq<FrameItem>, sel: Set<u64>, i: int) -> bool {
    &&& in_loop(sel, s[i])
    &&& ((forall|j: int| 0 <= j < i ==> !#[trigger] in_loop(sel, s[j])) || (forall|j: int|
        i < j < s.len() ==> !#[trigger] in_loop(sel, s[j])))
}

/// Twice `d`, at most `u32::MAX`.
pub open spec fn doubled_duration(d: u32) -> u32 {
    if d > 2147483647 {
        u32::MAX
    } else {
        (2 * d) as u32
    }
}

/// The timeline with the durations of the first and the last frame of the
/// loop source of `sel` doubled (once when they are the same frame).
pub open spec fn loop_ends_doubled(s: Seq<FrameItem>, sel: Set<u64>) -> Seq<FrameItem> {
    Seq::new(
        s.len(),
        |i: int|
            if loop_end(s, sel, i) {
                FrameItem { duration_ms: doubled_duration(s[i].duration_ms), ..s[i] }
            } else {
                s[i]
            },
    )
}

/// `src` repeated `r` times.
pub open spec fn repeated(src: Seq<FrameItem>, r: nat) -> Seq<FrameItem>
    decreases r,
{
    if r == 0 {
        Seq::empty()
    } else {
        repeated(src, (r - 1) as nat) + src
    }
}

/// The position a dragged frame ends up at when dropped before position
/// `target` (counted in the timeline before the move).
pub open spec fn drop_position(current: int, target: int, len: int) -> int {
    let clamped = if target < len {
        target
    } else {
        len
    };
    if current < clamped {
        clamped - 1
    } else {
        clamped
    }
}

impl Timeline {
    pub closed spec fn next_id(&self) -> u64 {
        self.next_id
    }

    /// Every frame's id is below the id the next new frame receives.
    pub open spec fn wf(&self) -> bool {
        forall|i: int| 0 <= i < self@.len() ==> #[trigger] self@[i].id < self.next_id()
    }

    /// An empty timeline whose first frame will get id 1.
    pub fn new() -> (t: Self)
        ensures
            t@ == Seq::<FrameItem>::empty(),
            t.next_id() == 1,
            t.wf(),
    {
        Timeline { frames: Vec::new(), next_id: 1 }
    }

    /// A timeline holding `frames`; new frames are numbered after the
    /// largest id among them.
    pub fn from_frames(frames: Vec<FrameItem>) -> (t: Self)
        requires
            max_frame_id(frames@) < u64::MAX,
        ensures
            t@ == frames@,
            t.next_id() == max_frame_id(frames@) + 1,
            t.wf(),
    {
        let mut m: u64 = 0;
        let mut i: usize = 0;
        while i < frames.len()
            invariant
                i <= frames@.len(),
                m == max_frame_id(frames@.take(i as int)),
            decreases frames@.len() - i,
        {
            proof {
                assert(frames@.take(i + 1).drop_last() =~= frames@.take(i as int));
            }
            if frames[i].id > m {
                m = frames[i].id;
            }
            i += 1;
        }
        assert(frames@.take(frames@.len() as int) =~= frames@);
        proof {
            lemma_max_frame_id(frames@);
        }
        Timeline { frames, next_id: m + 1 }
    }

    /// The id the next new frame receives.
    pub fn next_frame_id(&self) -> (n: u64)
        ensures
            n == self.next_id(),
    {
        self.next_id
    }

    pub fn frames(&self) -> (f: &[FrameItem])
        ensures
            f@ == self@,
    {
        self.frames.as_slice()
    }

    pub fn is_empty(&self) -> (b: bool)
        ensures
            b <==> self@.len() == 0,
    {
        self.frames.is_empty()
    }

    /// Direct access to the frames; the next id is left as it was.
    pub fn frames_mut(&mut self) -> (f: &mut [FrameItem])
        ensures
            f@ == old(self)@,
            final(f)@ == final(self)@,
            final(self).next_id() == old(self).next_id(),
    {
        self.frames.as_mut_slice()
    }

    /// A copy of `frame` under the next free id.
    pub fn clone_with_new_id(&mut self, frame: &FrameItem) -> (c: FrameItem)
        requires
            old(self).next_id() < u64::MAX,
        ensures
            c == frame.with_id(old(self).next_id()),
            final(self)@ == old(self)@,
            final(self).next_id() == old(self).next_id() + 1,
            old(self).wf() ==> final(self).wf(),
    {
        let mut cloned = frame.clone();
        cloned.id = self.next_id;
        self.next_id = self.next_id + 1;
        cloned
    }

    fn build_imported_frames(&mut self, paths: Vec<String>) -> (imported: Vec<FrameItem>)
        requires
            old(self).next_id() + paths@.len() <= u64::MAX,
        ensures
            imported@ == imported_frames(paths@, old(self).next_id()),
            final(self)@ == old(self)@,
            final(self).next_id() == old(self).next_id() + paths@.len(),
    {
        let ghost first = self.next_id;
        let mut imported: Vec<FrameItem> = Vec::new();
        let mut i: usize = 0;
        while i < paths.len()
            invariant
                i <= paths@.len(),
                first + paths@.len() <= u64::MAX,
                self.next_id == first + i,
                self.frames@ == old(self).frames@,
                imported@ == imported_frames(paths@.take(i as int), first),
            decreases paths@.len() - i,
        {
            let id = self.next_id;
            self.next_id = self.next_id + 1;
            imported.push(
                FrameItem {
                    id,
                    source_path: paths[i].clone(),
                    duration_ms: 100,
                    transform_spec: crate::types::TransformSpec::default(),
                    thumbnail_path: None,
                    enabled: true,
                    source_dimensions: None,
                },
            );
            assert(imported@ =~= imported_frames(paths@.take(i + 1), first));
            i += 1;
        }
        assert(paths@.take(paths@.len() as int) =~= paths@);
        imported
    }

    fn ids_of(frames: &Vec<FrameItem>) -> (ids: Vec<u64>)
        ensures
            ids@ == frame_ids(frames@),
    {
        let mut ids: Vec<u64> = Vec::new();
        let mut i: usize = 0;
        while i < frames.len()
            invariant
                i <= frames@.len(),
                ids@ == frame_ids(frames@.take(i as int)),
            decreases frames@.len() - i,
        {
            ids.push(frames[i].id);
            assert(ids@ =~= frame_ids(frames@.take(i + 1)));
            i += 1;
        }
        assert(frames@.take(frames@.len() as int) =~= frames@);
        ids
    }

    /// Appends frames for `paths` and returns their ids.
    pub fn import_paths(&mut self, paths: Vec<String>) -> (ids: Vec<u64>)
        requires
            old(self).next_id() + paths@.len() <= u64::MAX,
        ensures
            final(self)@ == old(self)@ + imported_frames(paths@, old(self).next_id()),
            final(self).next_id() == old(self).next_id() + paths@.len(),
            ids@ == fresh_ids(old(self).next_id(), paths@.len()),
            old(self).wf() ==> final(self).wf(),
    {
        let mut imported = self.build_imported_frames(paths);
        let ids = Self::ids_of(&imported);
        self.frames.append(&mut imported);
        assert(ids@ =~= fresh_ids(old(self).next_id(), paths@.len()));
        ids
    }

    /// Inserts frames for `paths` at the front, in order, and returns their
    /// ids.
    pub fn prepend_paths(&mut self, paths: Vec<String>) -> (ids: Vec<u64>)
        requires
            old(self).next_id() + paths@.len() <= u64::MAX,
        ensures
            final(self)@ == imported_frames(paths@, old(self).next_id()) + old(self)@,
            final(self).next_id() == old(self).next_id() + paths@.len(),
            ids@ == fresh_ids(old(self).next_id(), paths@.len()),
            old(self).wf() ==> final(self).wf(),
    {
        let mut imported = self.build_imported_frames(paths);
        let ids = Self::ids_of(&imported);
        imported.append(&mut self.frames);
        self.frames = imported;
        assert(ids@ =~= fresh_ids(old(self).next_id(), paths@.len()));
        ids
    }

    /// Drops every frame and imports `paths` numbered from 1.
    pub fn replace_paths(&mut self, paths: Vec<String>) -> (ids: Vec<u64>)
        requires
            1 + paths@.len() <= u64::MAX,
        ensures
            final(self)@ == imported_frames(paths@, 1),
            final(self).next_id() == 1 + paths@.len(),
            ids@ == fresh_ids(1, paths@.len()),
            final(self).wf(),
    {
        self.frames.clear();
        self.next_id = 1;
        self.import_paths(paths)
    }

    /// The positions of the selected frames, in increasing order.
    pub fn selected_indices(selection: &BTreeSet<u64>, frames: &[FrameItem]) -> (r: Vec<usize>)
        ensures
            r@.len() == selected_positions(selection@, frames@).len(),
            forall|k: int| 0 <= k < r@.len() ==> r@[k] as int == #[trigger] selected_positions(selection@, frames@)[k],
    {
        let mut r: Vec<usize> = Vec::new();
        let mut i: usize = 0;
        while i < frames.len()
            invariant
                i <= frames@.len(),
                r@.len() == selected_positions(selection@, frames@.take(i as int)).len(),
                forall|k: int|
                    0 <= k < r@.len() ==> r@[k] as int == #[trigger] selected_positions(selection@, frames@.take(i as int))[k],
            decreases frames@.len() - i,
        {
            proof {
                assert(frames@.take(i + 1).drop_last() =~= frames@.take(i as int));
            }
            if selection.contains(&frames[i].id) {
                r.push(i);
            }
            i += 1;
        }
        assert(frames@.take(frames@.len() as int) =~= frames@);
        r
    }

    /// Removes the selected frames, keeping the others in order.
    pub fn remove_selected(&mut self, selection: &BTreeSet<u64>)
        ensures
            final(self)@ == kept(old(self)@, selection@),
            final(self).next_id() == old(self).next_id(),
            old(self).wf() ==> final(self).wf(),
    {
        let ghost s = self.frames@;
        let mut out: Vec<FrameItem> = Vec::new();
        let mut i: usize = 0;
        while i < self.frames.len()
            invariant
                i <= s.len(),
                self.frames@ == s,
                out@ == kept(s.take(i as int), selection@),
            decreases s.len() - i,
        {
            proof {
                assert(s.take(i + 1).drop_last() =~= s.take(i as int));
            }
            if !selection.contains(&self.frames[i].id) {
                out.push(self.frames[i].clone());
            }
            i += 1;
        }
        assert(s.take(s.len() as int) =~= s);
        proof {
            lemma_kept_subset(s, selection@);
        }
        self.frames = out;
    }
}


impl Timeline {
    /// Pushes copies of `src` numbered from the next free id onto `out` and
    /// returns their ids.
    fn push_relabeled(&mut self, out: &mut Vec<FrameItem>, src: &[FrameItem]) -> (ids: Vec<u64>)
        requires
            old(self).next_id() + src@.len() <= u64::MAX,
        ensures
            final(out)@ == old(out)@ + relabeled(src@, old(self).next_id()),
            final(self)@ == old(self)@,
            final(self).next_id() == old(self).next_id() + src@.len(),
            ids@ == fresh_ids(old(self).next_id(), src@.len()),
    {
        let ghost base = self.next_id;
        let ghost start = out@;
        let mut ids: Vec<u64> = Vec::new();
        let mut i: usize = 0;
        while i < src.len()
            invariant
                i <= src@.len(),
                base + src@.len() <= u64::MAX,
                self.next_id == base + i,
                self.frames@ == old(self).frames@,
                out@ == start + relabeled(src@.take(i as int), base),
                ids@ == fresh_ids(base, i as nat),
            decreases src@.len() - i,
        {
            let c = self.clone_with_new_id(&src[i]);
            ids.push(c.id);
            out.push(c);
            assert(out@ =~= start + relabeled(src@.take(i + 1), base));
            assert(ids@ =~= fresh_ids(base, (i + 1) as nat));
            i += 1;
        }
        assert(src@.take(src@.len() as int) =~= src@);
        ids
    }

    /// Inserts a copy of every selected frame directly after it and returns
    /// the copies' ids, in timeline order.
    pub fn duplicate_selected(&mut self, selection: &BTreeSet<u64>) -> (inserted: Vec<u64>)
        requires
            old(self).next_id() + chosen(old(self)@, selection@).len() <= u64::MAX,
        ensures
            final(self)@ == duplicated(old(self)@, selection@, old(self).next_id()),
            final(self).next_id() == old(self).next_id() + chosen(old(self)@, selection@).len(),
            inserted@ == fresh_ids(old(self).next_id(), chosen(old(self)@, selection@).len()),
            old(self).wf() ==> final(self).wf(),
    {
        let ghost s = self.frames@;
        let ghost base = self.next_id;
        let ghost sel = selection@;
        let mut out: Vec<FrameItem> = Vec::new();
        let mut inserted: Vec<u64> = Vec::new();
        let mut i: usize = 0;
        while i < self.frames.len()
            invariant
                i <= s.len(),
                self.frames@ == s,
                sel == selection@,
                base + chosen(s, sel).len() <= u64::MAX,
                self.next_id == base + chosen(s.take(i as int), sel).len(),
                out@ == duplicated(s.take(i as int), sel, base),
                inserted@ == fresh_ids(base, chosen(s.take(i as int), sel).len()),
            decreases s.len() - i,
        {
            proof {
                assert(s.take(i + 1).drop_last() =~= s.take(i as int));
                lemma_chosen_prefix_len(s, sel, i + 1);
            }
            let f = self.frames[i].clone();
            if selection.contains(&f.id) {
                let c = self.clone_with_new_id(&f);
                inserted.push(c.id);
                out.push(f);
                out.push(c);
                assert(inserted@ =~= fresh_ids(base, chosen(s.take(i + 1), sel).len()));
            } else {
                out.push(f);
            }
            i += 1;
        }
        assert(s.take(s.len() as int) =~= s);
        proof {
            if old(self).wf() {
                lemma_duplicated_ids(s, sel, base);
            }
        }
        self.frames = out;
        inserted
    }

    /// Inserts copies of the clipboard, numbered from the next free id, after
    /// the last selected frame (at the end when nothing is selected) and
    /// returns their ids. An empty clipboard changes nothing.
    pub fn paste_after_selection(&mut self, selection: &BTreeSet<u64>, clipboard: &[FrameItem]) -> (inserted: Vec<u64>)
        requires
            old(self).next_id() + clipboard@.len() <= u64::MAX,
        ensures
            ({
                let s = old(self)@;
                let a = paste_position(selection@, s);
                final(self)@ == s.take(a) + relabeled(clipboard@, old(self).next_id()) + s.skip(a)
            }),
            final(self).next_id() == old(self).next_id() + clipboard@.len(),
            inserted@ == fresh_ids(old(self).next_id(), clipboard@.len()),
            old(self).wf() ==> final(self).wf(),
    {
        let ghost s = self.frames@;
        let ghost base = self.next_id;
        proof {
            lemma_last_selected_in_range(selection@, s);
        }
        if clipboard.len() == 0 {
            assert(s.take(paste_position(selection@, s)) + relabeled(clipboard@, base) + s.skip(
                paste_position(selection@, s),
            ) =~= s);
            assert(fresh_ids(base, 0) =~= Seq::<u64>::empty());
            return Vec::new();
        }
        let mut last: Option<usize> = None;
        let mut i: usize = 0;
        while i < self.frames.len()
            invariant
                i <= s.len(),
                self.frames@ == s,
                last matches Some(j) ==> j < i,
                match last {
                    Some(j) => last_selected_position(selection@, s.take(i as int)) == Some(j as int),
                    None => last_selected_position(selection@, s.take(i as int)) is None,
                },
            decreases s.len() - i,
        {
            proof {
                assert(s.take(i + 1).drop_last() =~= s.take(i as int));
            }
            if selection.contains(&self.frames[i].id) {
                last = Some(i);
            }
            i += 1;
        }
        assert(s.take(s.len() as int) =~= s);
        let after = match last {
            Some(j) => j + 1,
            None => self.frames.len(),
        };
        proof {
            lemma_last_selected_in_range(selection@, s);
        }
        let mut out = copy_range(&self.frames, 0, after);
        let inserted = self.push_relabeled(&mut out, clipboard);
        let mut rest = copy_range(&self.frames, after, self.frames.len());
        out.append(&mut rest);
        assert(s.subrange(0, after as int) =~= s.take(after as int));
        assert(s.subrange(after as int, s.len() as int) =~= s.skip(after as int));
        proof {
            if old(self).wf() {
                assert forall|k: int| 0 <= k < out@.len() implies #[trigger] out@[k].id < self.next_id by {
                    if k < after {
                        assert(out@[k] == s[k]);
                    } else if k >= after + clipboard@.len() {
                        assert(out@[k] == s[k - clipboard@.len()]);
                    }
                }
            }
        }
        self.frames = out;
        inserted
    }

    /// Moves every selected frame that has an unselected frame right before
    /// it one step toward the start, carrying runs of selected frames along.
    pub fn move_selection_up(&mut self, selection: &BTreeSet<u64>)
        ensures
            final(self)@ == moved_up(old(self)@, selection@),
            final(self).next_id() == old(self).next_id(),
            old(self).wf() ==> final(self).wf(),
    {
        let out = up_pass(&self.frames, selection);
        proof {
            lemma_moved_up_members(self.frames@, selection@);
        }
        self.frames = out;
    }

    /// Moves every selected frame that has an unselected frame right after
    /// it one step toward the end, carrying runs of selected frames along.
    pub fn move_selection_down(&mut self, selection: &BTreeSet<u64>)
        ensures
            final(self)@ == moved_down(old(self)@, selection@),
            final(self).next_id() == old(self).next_id(),
            old(self).wf() ==> final(self).wf(),
    {
        let ghost s = self.frames@;
        let rev = reversed(&self.frames);
        let moved = up_pass(&rev, selection);
        let out = reversed(&moved);
        proof {
            lemma_moved_up_members(s.reverse(), selection@);
            if old(self).wf() {
                assert forall|k: int| 0 <= k < out@.len() implies #[trigger] out@[k].id < self.next_id by {
                    let m = moved@[moved@.len() - 1 - k];
                    assert(out@[k] == m);
                    let w = choose|w: int| 0 <= w < s.reverse().len() && s.reverse()[w] == m;
                    assert(s[s.len() - 1 - w] == m);
                }
            }
        }
        self.frames = out;
    }

    /// Sets the duration of every selected frame.
    pub fn apply_duration(&mut self, selection: &BTreeSet<u64>, duration_ms: u32)
        ensures
            final(self)@ == with_duration(old(self)@, selection@, duration_ms),
            final(self).next_id() == old(self).next_id(),
            old(self).wf() ==> final(self).wf(),
    {
        let ghost s = self.frames@;
        let mut i: usize = 0;
        while i < self.frames.len()
            invariant
                i <= s.len(),
                self.frames@.len() == s.len(),
                self.next_id == old(self).next_id,
                forall|k: int| 0 <= k < i ==> #[trigger] self.frames@[k] == with_duration(s, selection@, duration_ms)[k],
                forall|k: int| i <= k < s.len() ==> #[trigger] self.frames@[k] == s[k],
            decreases s.len() - i,
        {
            if selection.contains(&self.frames[i].id) {
                let mut f = self.frames[i].clone();
                f.duration_ms = duration_ms;
                self.frames.set(i, f);
            }
            i += 1;
        }
        assert(self.frames@ =~= with_duration(s, selection@, duration_ms));
    }

    /// Doubles the durations of the first and the last frame of the loop
    /// source of `selection` (the selected frames, or all frames when
    /// nothing is selected), at most `u32::MAX`.
    pub fn double_loop_ends(&mut self, selection: &BTreeSet<u64>)
        ensures
            final(self)@ == loop_ends_doubled(old(self)@, selection@),
            final(self).next_id() == old(self).next_id(),
            old(self).wf() ==> final(self).wf(),
    {
        let ghost s = self.frames@;
        let ghost sel = selection@;
        let all = selection.is_empty();
        let n = self.frames.len();
        let mut first: usize = 0;
        while first < n
            invariant
                first <= n,
                n == s.len(),
                self.frames@ == s,
                self.next_id == old(self).next_id,
                all == sel.is_empty(),
                sel == selection@,
                forall|j: int| 0 <= j < first ==> !#[trigger] in_loop(sel, s[j]),
            ensures
                first <= n,
                first < n ==> in_loop(sel, s[first as int]),
                forall|j: int| 0 <= j < first ==> !#[trigger] in_loop(sel, s[j]),
            decreases n - first,
        {
            if all || selection.contains(&self.frames[first].id) {
                break;
            }
            first += 1;
        }
        if first == n {
            assert(self.frames@ =~= loop_ends_doubled(s, sel));
            return;
        }
        assert(in_loop(sel, s[first as int]));
        let mut last: usize = n - 1;
        while last > first
            invariant
                first <= last < n,
                n == s.len(),
                self.frames@ == s,
                all == sel.is_empty(),
                sel == selection@,
                in_loop(sel, s[first as int]),
                forall|j: int| last < j < n ==> !#[trigger] in_loop(sel, s[j]),
            ensures
                first <= last < n,
                in_loop(sel, s[last as int]),
                forall|j: int| last < j < n ==> !#[trigger] in_loop(sel, s[j]),
            decreases last,
        {
            if all || selection.contains(&self.frames[last].id) {
                break;
            }
            last -= 1;
        }
        assert(in_loop(sel, s[last as int]));
        let mut f = self.frames[first].clone();
        f.duration_ms = if f.duration_ms > 2147483647 {
            u32::MAX
        } else {
            f.duration_ms * 2
        };
        self.frames.set(first, f);
        if last != first {
            let mut g = self.frames[last].clone();
            g.duration_ms = if g.duration_ms > 2147483647 {
                u32::MAX
            } else {
                g.duration_ms * 2
            };
            self.frames.set(last, g);
        }
        assert forall|i: int| 0 <= i < s.len() implies #[trigger] loop_end(s, sel, i) == (i == first || i == last) by {
            if i != first && i != last && in_loop(sel, s[i]) {
                assert(first < i);
                assert(i < last);
                assert(!(forall|j: int| 0 <= j < i ==> !#[trigger] in_loop(sel, s[j])));
                assert(!(forall|j: int| i < j < s.len() ==> !#[trigger] in_loop(sel, s[j])));
            }
        }
        assert(self.frames@ =~= loop_ends_doubled(s, sel));
    }

    /// Moves the frame with id `frame_id` so that it lands before the frame
    /// that was at `target_index` (at the end for an index past the last
    /// frame). Returns whether anything moved: nothing moves for an unknown
    /// id or when the frame is already in place.
    #[verifier::spinoff_prover]
    pub fn move_frame_to_index(&mut self, frame_id: u64, target_index: usize) -> (moved: bool)
        ensures
            moved == match frame_ids(old(self)@).index_of_first(frame_id) {
                Some(c) => {
                    let cl = if target_index < old(self)@.len() {
                        target_index as int
                    } else {
                        old(self)@.len() as int
                    };
                    c != cl && c + 1 != cl
                },
                None => false,
            },
            moved ==> ({
                let s = old(self)@;
                let c = frame_ids(s).index_of_first(frame_id).unwrap();
                final(self)@ == s.remove(c).insert(drop_position(c, target_index as int, s.len() as int), s[c])
            }),
            moved ==> crate::timeline_laws::lands_before(
                old(self)@,
                frame_ids(old(self)@).index_of_first(frame_id).unwrap(),
                target_index as int,
                final(self)@,
            ),
            !moved ==> final(self)@ == old(self)@,
            final(self).next_id() == old(self).next_id(),
            old(self).wf() ==> final(self).wf(),
    {
        let ghost s = self.frames@;
        proof {
            frame_ids(s).index_of_first_ensures(frame_id);
        }
        let current_index = match frame_position(&self.frames, frame_id) {
            Some(c) => c,
            None => {
                return false;
            },
        };
        let len = self.frames.len();
        let clamped_target = if target_index < len {
            target_index
        } else {
            len
        };
        if current_index == clamped_target || current_index + 1 == clamped_target {
            return false;
        }
        let frame = self.frames.remove(current_index);
        let adjusted_target = if current_index < clamped_target {
            clamped_target - 1
        } else {
            clamped_target
        };
        self.frames.insert(adjusted_target, frame);
        proof {
            if old(self).wf() {
                let r = s.remove(current_index as int);
                assert forall|k: int| 0 <= k < self.frames@.len() implies #[trigger] self.frames@[k].id < self.next_id by {
                    if k < adjusted_target {
                        assert(self.frames@[k] == r[k]);
                    } else if k > adjusted_target {
                        assert(self.frames@[k] == r[k - 1]);
                    }
                    assert(forall|j: int| 0 <= j < r.len() ==> r[j] == s[if j < current_index { j } else { j + 1 }]);
                }
            }
            assert(self.frames@ == s.remove(current_index as int).insert(
                drop_position(current_index as int, target_index as int, s.len() as int),
                s[current_index as int],
            ));
            assert(frame_ids(s).index_of_first(frame_id) == Some(current_index as int));
            crate::timeline_laws::law_drop_lands_before_target(s, current_index as int, target_index as int);
        }
        true
    }

    fn selection_or_all(&self, selection: &BTreeSet<u64>) -> (r: Vec<FrameItem>)
        ensures
            r@ == loop_source(self@, selection@),
    {
        let ghost s = self.frames@;
        let everything = selection.is_empty();
        let mut r: Vec<FrameItem> = Vec::new();
        let mut i: usize = 0;
        while i < self.frames.len()
            invariant
                i <= s.len(),
                self.frames@ == s,
                everything == selection@.is_empty(),
                everything ==> r@ == s.take(i as int),
                !everything ==> r@ == chosen(s.take(i as int), selection@),
            decreases s.len() - i,
        {
            proof {
                assert(s.take(i + 1).drop_last() =~= s.take(i as int));
            }
            if everything || selection.contains(&self.frames[i].id) {
                r.push(self.frames[i].clone());
            }
            proof {
                if everything {
                    assert(r@ =~= s.take(i + 1));
                }
            }
            i += 1;
        }
        assert(s.take(s.len() as int) =~= s);
        r
    }

    /// Appends copies of the loop source (the selected frames, or all of
    /// them when nothing is selected) and returns the copies' ids.
    pub fn append_duplicate_loop(&mut self, selection: &BTreeSet<u64>) -> (inserted: Vec<u64>)
        requires
            old(self).next_id() + loop_source(old(self)@, selection@).len() <= u64::MAX,
        ensures
            final(self)@ == old(self)@ + relabeled(loop_source(old(self)@, selection@), old(self).next_id()),
            final(self).next_id() == old(self).next_id() + loop_source(old(self)@, selection@).len(),
            inserted@ == fresh_ids(old(self).next_id(), loop_source(old(self)@, selection@).len()),
            old(self).wf() ==> final(self).wf(),
    {
        let source = self.selection_or_all(selection);
        let mut out: Vec<FrameItem> = Vec::new();
        let inserted = self.push_relabeled(&mut out, source.as_slice());
        self.frames.append(&mut out);
        inserted
    }

    /// The frames a duplicate loop repeats.
    pub fn duplicate_loop_source(&self, selection: &BTreeSet<u64>) -> (r: Vec<FrameItem>)
        ensures
            r@ == loop_source(self@, selection@),
    {
        self.selection_or_all(selection)
    }

    /// The frames a reverse loop appends: the loop source backwards, without
    /// its two end frames unless `repeat_edges` is set.
    pub fn reverse_loop_source(&self, selection: &BTreeSet<u64>, repeat_edges: bool) -> (r: Vec<FrameItem>)
        ensures
            r@ == reverse_source(self@, selection@, repeat_edges),
    {
        let mut source = self.selection_or_all(selection);
        let ghost src = source@;
        if !repeat_edges && source.len() > 1 {
            source.pop();
            source.remove(0);
            assert(source@ =~= src.subrange(1, src.len() - 1));
        }
        reversed(&source)
    }

    /// Appends `max(repeats, 1)` rounds of copies of `source` and returns the
    /// copies' ids.
    pub fn append_copies(&mut self, source: &[FrameItem], repeats: u32) -> (inserted: Vec<u64>)
        requires
            old(self).next_id() + repeated(source@, rounds(repeats)).len() <= u64::MAX,
        ensures
            final(self)@ == old(self)@ + relabeled(repeated(source@, rounds(repeats)), old(self).next_id()),
            final(self).next_id() == old(self).next_id() + repeated(source@, rounds(repeats)).len(),
            inserted@ == fresh_ids(old(self).next_id(), repeated(source@, rounds(repeats)).len()),
            old(self).wf() ==> final(self).wf(),
    {
        let ghost base = self.next_id;
        let ghost src = source@;
        let total: u32 = if repeats > 1 {
            repeats
        } else {
            1
        };
        let mut out: Vec<FrameItem> = Vec::new();
        let mut inserted: Vec<u64> = Vec::new();
        let mut k: u32 = 0;
        while k < total
            invariant
                k <= total,
                total == rounds(repeats),
                base + repeated(src, total as nat).len() <= u64::MAX,
                self.frames@ == old(self).frames@,
                self.next_id == base + repeated(src, k as nat).len(),
                out@ == relabeled(repeated(src, k as nat), base),
                inserted@ == fresh_ids(base, repeated(src, k as nat).len()),
                src == source@,
            decreases total - k,
        {
            proof {
                lemma_repeated_monotone(src, (k + 1) as nat, total as nat);
                assert(repeated(src, (k + 1) as nat) == repeated(src, k as nat) + src);
            }
            let mut ids = self.push_relabeled(&mut out, source);
            inserted.append(&mut ids);
            proof {
                let before = repeated(src, k as nat);
                assert(out@ =~= relabeled(before + src, base));
                assert(inserted@ =~= fresh_ids(base, (before + src).len()));
            }
            k += 1;
        }
        self.frames.append(&mut out);
        inserted
    }

    /// Appends copies of the reverse loop source and returns their ids.
    pub fn append_reverse_loop(&mut self, selection: &BTreeSet<u64>, repeat_edges: bool) -> (inserted: Vec<u64>)
        requires
            old(self).next_id() + reverse_source(old(self)@, selection@, repeat_edges).len() <= u64::MAX,
        ensures
            final(self)@ == old(self)@ + relabeled(reverse_source(old(self)@, selection@, repeat_edges), old(self).next_id()),
            final(self).next_id() == old(self).next_id() + reverse_source(old(self)@, selection@, repeat_edges).len(),
            inserted@ == fresh_ids(old(self).next_id(), reverse_source(old(self)@, selection@, repeat_edges).len()),
            old(self).wf() ==> final(self).wf(),
    {
        let source = self.reverse_loop_source(selection, repeat_edges);
        assert(repeated(source@, 0) =~= Seq::<FrameItem>::empty());
        assert(repeated(source@, 1) =~= source@);
        self.append_copies(source.as_slice(), 1)
    }
}

/// The timeline with `f` applied to the selected frames.
pub open spec fn map_selected(s: Seq<FrameItem>, sel: Set<u64>, f: spec_fn(FrameItem) -> FrameItem) -> Seq<FrameItem> {
    Seq::new(
        s.len(),
        |i: int|
            if sel.contains(s[i].id) {
                f(s[i])
            } else {
                s[i]
            },
    )
}

/// The timeline with `f` applied to the first frame with id `id`.
pub open spec fn map_first(s: Seq<FrameItem>, id: u64, f: spec_fn(FrameItem) -> FrameItem) -> Seq<FrameItem> {
    match frame_ids(s).index_of_first(id) {
        Some(i) => s.update(i, f(s[i])),
        None => s,
    }
}

pub open spec fn rotated_by(f: FrameItem, delta: i32) -> FrameItem {
    FrameItem {
        transform_spec: crate::types::TransformSpec {
            rotate_quarter_turns: (f.transform_spec.rotate_quarter_turns + delta) as i32,
            ..f.transform_spec
        },
        ..f
    }
}

pub open spec fn flipped(f: FrameItem, horizontal: bool) -> FrameItem {
    FrameItem {
        transform_spec: if horizontal {
            crate::types::TransformSpec { flip_horizontal: !f.transform_spec.flip_horizontal, ..f.transform_spec }
        } else {
            crate::types::TransformSpec { flip_vertical: !f.transform_spec.flip_vertical, ..f.transform_spec }
        },
        ..f
    }
}

pub open spec fn with_inspector(f: FrameItem, v: InspectorValues) -> FrameItem {
    FrameItem {
        transform_spec: crate::types::TransformSpec {
            flip_horizontal: v.flip_horizontal,
            flip_vertical: v.flip_vertical,
            crop: v.crop,
            resize: v.resize,
            fit_mode: v.fit_mode,
            ..f.transform_spec
        },
        ..f
    }
}

/// A frame with a thumbnail and a size recorded, each only when given.
pub open spec fn with_metadata(f: FrameItem, thumbnail_path: Option<String>, dimensions: Option<(u32, u32)>) -> FrameItem {
    FrameItem {
        thumbnail_path: match thumbnail_path {
            Some(t) => Some(t),
            None => f.thumbnail_path,
        },
        source_dimensions: match dimensions {
            Some(d) => Some(d),
            None => f.source_dimensions,
        },
        ..f
    }
}

pub open spec fn with_crop(f: FrameItem, crop: Option<CropRect>) -> FrameItem {
    FrameItem { transform_spec: crate::types::TransformSpec { crop, ..f.transform_spec }, ..f }
}

/// A frame after the quick crop: cropped when a quick crop exists for it.
pub open spec fn quick_cropped(f: FrameItem, preset: CropPreset, anchor: CropAnchor) -> FrameItem {
    match quick_crop(f, preset, anchor) {
        Some(c) => with_crop(f, Some(c)),
        None => f,
    }
}

/// The number of selected frames that satisfy `p`.
pub open spec fn count_selected_where(s: Seq<FrameItem>, sel: Set<u64>, p: spec_fn(FrameItem) -> bool) -> nat
    decreases s.len(),
{
    if s.len() == 0 {
        0
    } else {
        count_selected_where(s.drop_last(), sel, p) + if sel.contains(s.last().id) && p(s.last()) {
            1nat
        } else {
            0nat
        }
    }
}

/// The total duration of the frames in milliseconds.
pub open spec fn total_duration(s: Seq<FrameItem>) -> nat
    decreases s.len(),
{
    if s.len() == 0 {
        0
    } else {
        total_duration(s.drop_last()) + s.last().duration_ms as nat
    }
}

impl Timeline {
    /// Shows or hides a frame in the export (the first frame with that id).
    pub fn set_frame_enabled(&mut self, id: u64, enabled: bool)
        ensures
            final(self)@ == map_first(old(self)@, id, |f: FrameItem| FrameItem { enabled, ..f }),
            final(self).next_id() == old(self).next_id(),
            old(self).wf() ==> final(self).wf(),
    {
        match frame_position(&self.frames, id) {
            Some(i) => {
                let mut f = self.frames[i].clone();
                f.enabled = enabled;
                self.frames.set(i, f);
                assert(self.frames@ =~= map_first(old(self)@, id, |f: FrameItem| FrameItem { enabled, ..f }));
                proof {
                    if old(self).wf() {
                        assert forall|k: int| 0 <= k < self@.len() implies #[trigger] self@[k].id < self.next_id() by {
                            assert(self@[k].id == old(self)@[k].id);
                        }
                    }
                }
            },
            None => {},
        }
    }

    /// Records what was learned about a frame's image (the first frame with
    /// that id): its thumbnail and its size, each only when known.
    pub fn set_frame_metadata(&mut self, id: u64, thumbnail_path: Option<String>, dimensions: Option<(u32, u32)>)
        ensures
            final(self)@ == map_first(old(self)@, id, |f: FrameItem| with_metadata(f, thumbnail_path, dimensions)),
            final(self).next_id() == old(self).next_id(),
            old(self).wf() ==> final(self).wf(),
    {
        match frame_position(&self.frames, id) {
            Some(i) => {
                let mut f = self.frames[i].clone();
                match thumbnail_path {
                    Some(t) => f.thumbnail_path = Some(t),
                    None => {},
                }
                match dimensions {
                    Some(d) => f.source_dimensions = Some(d),
                    None => {},
                }
                self.frames.set(i, f);
                assert(self.frames@ =~= map_first(
                    old(self)@,
                    id,
                    |f: FrameItem| with_metadata(f, thumbnail_path, dimensions),
                ));
                proof {
                    if old(self).wf() {
                        assert forall|k: int| 0 <= k < self@.len() implies #[trigger] self@[k].id < self.next_id() by {
                            assert(self@[k].id == old(self)@[k].id);
                        }
                    }
                }
            },
            None => {},
        }
    }

    /// Sets the duration of a frame (the first with that id), at least 10 ms.
    pub fn set_frame_duration(&mut self, id: u64, duration_ms: u32)
        ensures
            final(self)@ == map_first(
                old(self)@,
                id,
                |f: FrameItem|
                    FrameItem {
                        duration_ms: if duration_ms > 10 {
                            duration_ms
                        } else {
                            10
                        },
                        ..f
                    },
            ),
            final(self).next_id() == old(self).next_id(),
            old(self).wf() ==> final(self).wf(),
    {
        let d: u32 = if duration_ms > 10 {
            duration_ms
        } else {
            10
        };
        match frame_position(&self.frames, id) {
            Some(i) => {
                let mut f = self.frames[i].clone();
                f.duration_ms = d;
                self.frames.set(i, f);
                assert(self.frames@ =~= map_first(
                    old(self)@,
                    id,
                    |f: FrameItem|
                        FrameItem {
                            duration_ms: if duration_ms > 10 {
                                duration_ms
                            } else {
                                10
                            },
                            ..f
                        },
                ));
                proof {
                    if old(self).wf() {
                        assert forall|k: int| 0 <= k < self@.len() implies #[trigger] self@[k].id < self.next_id() by {
                            assert(self@[k].id == old(self)@[k].id);
                        }
                    }
                }
            },
            None => {},
        }
    }

    /// Adds `delta` quarter turns to the rotation of every selected frame.
    pub fn rotate_selection(&mut self, selection: &BTreeSet<u64>, delta: i32)
        requires
            forall|i: int|
                0 <= i < old(self)@.len() && selection@.contains(#[trigger] old(self)@[i].id) ==> i32::MIN
                    <= old(self)@[i].transform_spec.rotate_quarter_turns + delta <= i32::MAX,
        ensures
            final(self)@ == map_selected(old(self)@, selection@, |f: FrameItem| rotated_by(f, delta)),
            final(self).next_id() == old(self).next_id(),
            old(self).wf() ==> final(self).wf(),
    {
        let ghost s = self.frames@;
        let mut i: usize = 0;
        while i < self.frames.len()
            invariant
                i <= s.len(),
                self.frames@.len() == s.len(),
                self.next_id == old(self).next_id,
                s == old(self)@,
                forall|k: int|
                    0 <= k < s.len() && selection@.contains(#[trigger] s[k].id) ==> i32::MIN
                        <= s[k].transform_spec.rotate_quarter_turns + delta <= i32::MAX,
                forall|k: int|
                    0 <= k < i ==> #[trigger] self.frames@[k] == map_selected(
                        s,
                        selection@,
                        |f: FrameItem| rotated_by(f, delta),
                    )[k],
                forall|k: int| i <= k < s.len() ==> #[trigger] self.frames@[k] == s[k],
            decreases s.len() - i,
        {
            if selection.contains(&self.frames[i].id) {
                let mut f = self.frames[i].clone();
                assert(selection@.contains(s[i as int].id));
                f.transform_spec.rotate_quarter_turns = f.transform_spec.rotate_quarter_turns + delta;
                self.frames.set(i, f);
            }
            i += 1;
        }
        assert(self.frames@ =~= map_selected(s, selection@, |f: FrameItem| rotated_by(f, delta)));
    }

    /// Toggles the horizontal (or vertical) flip of every selected frame.
    pub fn toggle_selection_flip(&mut self, selection: &BTreeSet<u64>, horizontal: bool)
        ensures
            final(self)@ == map_selected(old(self)@, selection@, |f: FrameItem| flipped(f, horizontal)),
            final(self).next_id() == old(self).next_id(),
            old(self).wf() ==> final(self).wf(),
    {
        let ghost s = self.frames@;
        let mut i: usize = 0;
        while i < self.frames.len()
            invariant
                i <= s.len(),
                self.frames@.len() == s.len(),
                self.next_id == old(self).next_id,
                s == old(self)@,
                forall|k: int|
                    0 <= k < i ==> #[trigger] self.frames@[k] == map_selected(
                        s,
                        selection@,
                        |f: FrameItem| flipped(f, horizontal),
                    )[k],
                forall|k: int| i <= k < s.len() ==> #[trigger] self.frames@[k] == s[k],
            decreases s.len() - i,
        {
            if selection.contains(&self.frames[i].id) {
                let mut f = self.frames[i].clone();
                if horizontal {
                    f.transform_spec.flip_horizontal = !f.transform_spec.flip_horizontal;
                } else {
                    f.transform_spec.flip_vertical = !f.transform_spec.flip_vertical;
                }
                self.frames.set(i, f);
            }
            i += 1;
        }
        assert(self.frames@ =~= map_selected(s, selection@, |f: FrameItem| flipped(f, horizontal)));
    }

    /// Sets the flips, crop, resize and fit of every selected frame from the
    /// inspector.
    pub fn apply_inspector_values(&mut self, selection: &BTreeSet<u64>, values: InspectorValues)
        ensures
            final(self)@ == map_selected(old(self)@, selection@, |f: FrameItem| with_inspector(f, values)),
            final(self).next_id() == old(self).next_id(),
            old(self).wf() ==> final(self).wf(),
    {
        let ghost s = self.frames@;
        let mut i: usize = 0;
        while i < self.frames.len()
            invariant
                i <= s.len(),
                self.frames@.len() == s.len(),
                self.next_id == old(self).next_id,
                s == old(self)@,
                forall|k: int|
                    0 <= k < i ==> #[trigger] self.frames@[k] == map_selected(
                        s,
                        selection@,
                        |f: FrameItem| with_inspector(f, values),
                    )[k],
                forall|k: int| i <= k < s.len() ==> #[trigger] self.frames@[k] == s[k],
            decreases s.len() - i,
        {
            if selection.contains(&self.frames[i].id) {
                let mut f = self.frames[i].clone();
                f.transform_spec.flip_horizontal = values.flip_horizontal;
                f.transform_spec.flip_vertical = values.flip_vertical;
                f.transform_spec.crop = values.crop;
                f.transform_spec.resize = values.resize;
                f.transform_spec.fit_mode = values.fit_mode;
                self.frames.set(i, f);
            }
            i += 1;
        }
        assert(self.frames@ =~= map_selected(s, selection@, |f: FrameItem| with_inspector(f, values)));
    }

    /// Applies the quick crop to every selected frame whose size is known.
    /// Returns how many frames were cropped and how many were skipped.
    pub fn apply_quick_crop(&mut self, selection: &BTreeSet<u64>, preset: CropPreset, anchor: CropAnchor) -> (r: (usize, usize))
        ensures
            final(self)@ == map_selected(old(self)@, selection@, |f: FrameItem| quick_cropped(f, preset, anchor)),
            r.0 == count_selected_where(old(self)@, selection@, |f: FrameItem| quick_crop(f, preset, anchor) is Some),
            r.1 == count_selected_where(old(self)@, selection@, |f: FrameItem| quick_crop(f, preset, anchor) is None),
            final(self).next_id() == old(self).next_id(),
            old(self).wf() ==> final(self).wf(),
    {
        let ghost s = self.frames@;
        let ghost has = |f: FrameItem| quick_crop(f, preset, anchor) is Some;
        let ghost hasnt = |f: FrameItem| quick_crop(f, preset, anchor) is None;
        let mut applied: usize = 0;
        let mut skipped: usize = 0;
        let mut i: usize = 0;
        while i < self.frames.len()
            invariant
                i <= s.len(),
                self.frames@.len() == s.len(),
                self.next_id == old(self).next_id,
                s == old(self)@,
                has == (|f: FrameItem| quick_crop(f, preset, anchor) is Some),
                hasnt == (|f: FrameItem| quick_crop(f, preset, anchor) is None),
                applied == count_selected_where(s.take(i as int), selection@, has),
                skipped == count_selected_where(s.take(i as int), selection@, hasnt),
                applied + skipped <= i,
                forall|k: int|
                    0 <= k < i ==> #[trigger] self.frames@[k] == map_selected(
                        s,
                        selection@,
                        |f: FrameItem| quick_cropped(f, preset, anchor),
                    )[k],
                forall|k: int| i <= k < s.len() ==> #[trigger] self.frames@[k] == s[k],
            decreases s.len() - i,
        {
            proof {
                assert(s.take(i + 1).drop_last() =~= s.take(i as int));
            }
            if selection.contains(&self.frames[i].id) {
                match crop_rect_for_frame(&self.frames[i], preset, anchor) {
                    Some(c) => {
                        let mut f = self.frames[i].clone();
                        f.transform_spec.crop = Some(c);
                        self.frames.set(i, f);
                        applied += 1;
                    },
                    None => {
                        skipped += 1;
                    },
                }
            }
            i += 1;
        }
        assert(s.take(s.len() as int) =~= s);
        assert(self.frames@ =~= map_selected(s, selection@, |f: FrameItem| quick_cropped(f, preset, anchor)));
        (applied, skipped)
    }

    /// Removes the crop of every selected frame and returns how many frames
    /// had one.
    pub fn clear_selection_crop(&mut self, selection: &BTreeSet<u64>) -> (cleared: usize)
        ensures
            final(self)@ == map_selected(old(self)@, selection@, |f: FrameItem| with_crop(f, None)),
            cleared == count_selected_where(old(self)@, selection@, |f: FrameItem| f.transform_spec.crop is Some),
            final(self).next_id() == old(self).next_id(),
            old(self).wf() ==> final(self).wf(),
    {
        let ghost s = self.frames@;
        let ghost has = |f: FrameItem| f.transform_spec.crop is Some;
        let mut cleared: usize = 0;
        let mut i: usize = 0;
        while i < self.frames.len()
            invariant
                i <= s.len(),
                self.frames@.len() == s.len(),
                self.next_id == old(self).next_id,
                s == old(self)@,
                has == (|f: FrameItem| f.transform_spec.crop is Some),
                cleared == count_selected_where(s.take(i as int), selection@, has),
                cleared <= i,
                forall|k: int|
                    0 <= k < i ==> #[trigger] self.frames@[k] == map_selected(
                        s,
                        selection@,
                        |f: FrameItem| with_crop(f, None),
                    )[k],
                forall|k: int| i <= k < s.len() ==> #[trigger] self.frames@[k] == s[k],
            decreases s.len() - i,
        {
            proof {
                assert(s.take(i + 1).drop_last() =~= s.take(i as int));
            }
            if selection.contains(&self.frames[i].id) {
                let mut f = self.frames[i].clone();
                if f.transform_spec.crop.is_some() {
                    cleared += 1;
                }
                f.transform_spec.crop = None;
                self.frames.set(i, f);
            }
            i += 1;
        }
        assert(s.take(s.len() as int) =~= s);
        assert(self.frames@ =~= map_selected(s, selection@, |f: FrameItem| with_crop(f, None)));
        cleared
    }

    /// The selected frames, in timeline order.
    pub fn selected_frames(&self, selection: &BTreeSet<u64>) -> (r: Vec<FrameItem>)
        ensures
            r@ == chosen(self@, selection@),
    {
        let ghost s = self.frames@;
        let mut r: Vec<FrameItem> = Vec::new();
        let mut i: usize = 0;
        while i < self.frames.len()
            invariant
                i <= s.len(),
                self.frames@ == s,
                r@ == chosen(s.take(i as int), selection@),
            decreases s.len() - i,
        {
            proof {
                assert(s.take(i + 1).drop_last() =~= s.take(i as int));
            }
            if selection.contains(&self.frames[i].id) {
                r.push(self.frames[i].clone());
            }
            i += 1;
        }
        assert(s.take(s.len() as int) =~= s);
        r
    }

    /// The id of the first selected frame in timeline order.
    pub fn primary_selected_id(&self, selection: &BTreeSet<u64>) -> (r: Option<u64>)
        ensures
            r == crate::selection::first_member(frame_ids(self@), selection@),
    {
        let ghost s = self.frames@;
        assert(frame_ids(s).skip(0) =~= frame_ids(s));
        let mut i: usize = 0;
        while i < self.frames.len()
            invariant
                i <= s.len(),
                self.frames@ == s,
                crate::selection::first_member(frame_ids(s), selection@) == crate::selection::first_member(
                    frame_ids(s).skip(i as int),
                    selection@,
                ),
            decreases s.len() - i,
        {
            assert(frame_ids(s).skip(i as int).drop_first() =~= frame_ids(s).skip(i + 1));
            if selection.contains(&self.frames[i].id) {
                return Some(self.frames[i].id);
            }
            i += 1;
        }
        None
    }

    /// The ids of the frames, in order.
    pub fn frame_id_list(&self) -> (ids: Vec<u64>)
        ensures
            ids@ == frame_ids(self@),
    {
        Self::ids_of(&self.frames)
    }

    /// The summed duration of all frames.
    pub fn total_duration_ms(&self) -> (d: u64)
        requires
            total_duration(self@) <= u64::MAX,
        ensures
            d == total_duration(self@),
    {
        let ghost s = self.frames@;
        let mut d: u64 = 0;
        let mut i: usize = 0;
        while i < self.frames.len()
            invariant
                i <= s.len(),
                self.frames@ == s,
                total_duration(s) <= u64::MAX,
                d == total_duration(s.take(i as int)),
            decreases s.len() - i,
        {
            proof {
                assert(s.take(i + 1).drop_last() =~= s.take(i as int));
                lemma_total_duration_prefix(s, i + 1);
            }
            d = d + self.frames[i].duration_ms as u64;
            i += 1;
        }
        assert(s.take(s.len() as int) =~= s);
        d
    }
}

/// A prefix never lasts longer than the whole timeline.
pub proof fn lemma_total_duration_prefix(s: Seq<FrameItem>, i: int)
    requires
        0 <= i <= s.len(),
    ensures
        total_duration(s.take(i)) <= total_duration(s),
    decreases s.len(),
{
    if i < s.len() {
        assert(s.drop_last().take(i) =~= s.take(i));
        lemma_total_duration_prefix(s.drop_last(), i);
    } else {
        assert(s.take(i) =~= s);
    }
}

impl Default for Timeline {
    fn default() -> (t: Self)
        ensures
            t@ == Seq::<FrameItem>::empty(),
            t.next_id() == 0,
    {
        Timeline { frames: Vec::new(), next_id: 0 }
    }
}

/// The number of rounds `append_copies` makes: at least one.
pub open spec fn rounds(repeats: u32) -> nat {
    if repeats > 1 {
        repeats as nat
    } else {
        1
    }
}

/// Where pasted frames go: after the last selected frame, or at the end.
pub open spec fn paste_position(sel: Set<u64>, s: Seq<FrameItem>) -> int {
    match last_selected_position(sel, s) {
        Some(i) => i + 1,
        None => s.len() as int,
    }
}

fn copy_range(v: &Vec<FrameItem>, lo: usize, hi: usize) -> (r: Vec<FrameItem>)
    requires
        lo <= hi <= v@.len(),
    ensures
        r@ == v@.subrange(lo as int, hi as int),
{
    let mut r: Vec<FrameItem> = Vec::new();
    let mut i = lo;
    while i < hi
        invariant
            lo <= i <= hi <= v@.len(),
            r@ == v@.subrange(lo as int, i as int),
        decreases hi - i,
    {
        r.push(v[i].clone());
        assert(r@ =~= v@.subrange(lo as int, i + 1));
        i += 1;
    }
    r
}

fn reversed(v: &Vec<FrameItem>) -> (r: Vec<FrameItem>)
    ensures
        r@ == v@.reverse(),
{
    let mut r: Vec<FrameItem> = Vec::new();
    let mut i = v.len();
    while i > 0
        invariant
            i <= v@.len(),
            r@ == v@.subrange(i as int, v@.len() as int).reverse(),
        decreases i,
    {
        r.push(v[i - 1].clone());
        assert(r@ =~= v@.subrange(i - 1, v@.len() as int).reverse());
        i -= 1;
    }
    assert(v@.subrange(0, v@.len() as int) =~= v@);
    r
}

fn up_pass(frames: &Vec<FrameItem>, selection: &BTreeSet<u64>) -> (out: Vec<FrameItem>)
    ensures
        out@ == moved_up(frames@, selection@),
{
    let ghost s = frames@;
    let mut out: Vec<FrameItem> = Vec::new();
    let mut held: Option<FrameItem> = None;
    let mut i: usize = 0;
    while i < frames.len()
        invariant
            i <= s.len(),
            frames@ == s,
            (out@, held) == up_scan(s.take(i as int), selection@),
        decreases s.len() - i,
    {
        proof {
            assert(s.take(i + 1).drop_last() =~= s.take(i as int));
        }
        let f = frames[i].clone();
        if selection.contains(&f.id) {
            out.push(f);
        } else {
            match held.take() {
                Some(u) => out.push(u),
                None => {},
            }
            held = Some(f);
        }
        i += 1;
    }
    assert(s.take(s.len() as int) =~= s);
    match held {
        Some(u) => out.push(u),
        None => {},
    }
    out
}

fn frame_position(frames: &Vec<FrameItem>, id: u64) -> (r: Option<usize>)
    ensures
        match r {
            Some(i) => frame_ids(frames@).index_of_first(id) == Some(i as int) && i < frames@.len(),
            None => frame_ids(frames@).index_of_first(id) is None,
        },
{
    let mut i: usize = 0;
    while i < frames.len()
        invariant
            i <= frames@.len(),
            forall|k: int| 0 <= k < i ==> frames@[k].id != id,
        decreases frames@.len() - i,
    {
        if frames[i].id == id {
            proof {
                frame_ids(frames@).index_of_first_ensures(id);
                let c = frame_ids(frames@).index_of_first(id).unwrap();
                assert(frame_ids(frames@)[i as int] == id);
                if c < i {
                    assert(frame_ids(frames@)[c] == frames@[c].id);
                }
            }
            return Some(i);
        }
        i += 1;
    }
    proof {
        frame_ids(frames@).index_of_first_ensures(id);
        if frame_ids(frames@).contains(id) {
            let w = choose|w: int| 0 <= w < frame_ids(frames@).len() && frame_ids(frames@)[w] == id;
            assert(frames@[w].id == id);
        }
    }
    None
}

/// A prefix never has more selected frames than the whole timeline.
pub proof fn lemma_chosen_prefix_len(s: Seq<FrameItem>, sel: Set<u64>, i: int)
    requires
        0 <= i <= s.len(),
    ensures
        chosen(s.take(i), sel).len() <= chosen(s, sel).len(),
    decreases s.len(),
{
    if i < s.len() {
        assert(s.drop_last().take(i) =~= s.take(i));
        lemma_chosen_prefix_len(s.drop_last(), sel, i);
    } else {
        assert(s.take(i) =~= s);
    }
}

/// Every id after duplicating is below `first` plus the number of copies,
/// when every original id is below `first`.
pub proof fn lemma_duplicated_ids(s: Seq<FrameItem>, sel: Set<u64>, first: u64)
    requires
        forall|i: int| 0 <= i < s.len() ==> #[trigger] s[i].id < first,
        first + chosen(s, sel).len() <= u64::MAX,
    ensures
        forall|j: int|
            0 <= j < duplicated(s, sel, first).len() ==> #[trigger] duplicated(s, sel, first)[j].id < first
                + chosen(s, sel).len(),
    decreases s.len(),
{
    if s.len() > 0 {
        let p = s.drop_last();
        assert(forall|i: int| 0 <= i < p.len() ==> #[trigger] p[i].id == s[i].id);
        lemma_duplicated_ids(p, sel, first);
    }
}

/// The last selected position lies inside the timeline.
pub proof fn lemma_last_selected_in_range(sel: Set<u64>, s: Seq<FrameItem>)
    ensures
        last_selected_position(sel, s) matches Some(i) ==> 0 <= i < s.len(),
    decreases s.len(),
{
    if s.len() > 0 {
        lemma_last_selected_in_range(sel, s.drop_last());
    }
}

/// Repeating more rounds never gives fewer frames.
pub proof fn lemma_repeated_monotone(src: Seq<FrameItem>, k: nat, total: nat)
    requires
        k <= total,
    ensures
        repeated(src, k).len() <= repeated(src, total).len(),
    decreases total,
{
    if k < total {
        lemma_repeated_monotone(src, k, (total - 1) as nat);
    }
}

/// Every frame that the upward scan emits or holds is a frame of the input.
pub proof fn lemma_up_scan_members(s: Seq<FrameItem>, sel: Set<u64>)
    ensures
        forall|j: int| 0 <= j < up_scan(s, sel).0.len() ==> s.contains(#[trigger] up_scan(s, sel).0[j]),
        up_scan(s, sel).1 matches Some(u) ==> s.contains(u),
    decreases s.len(),
{
    if s.len() > 0 {
        let p = s.drop_last();
        lemma_up_scan_members(p, sel);
        assert forall|x: FrameItem| p.contains(x) implies s.contains(x) by {
            let w = choose|w: int| 0 <= w < p.len() && p[w] == x;
            assert(s[w] == x);
        }
        assert(s[s.len() - 1] == s.last());
    }
}

/// Every frame after moving the selection up is a frame of the input.
pub proof fn lemma_moved_up_members(s: Seq<FrameItem>, sel: Set<u64>)
    ensures
        forall|j: int| 0 <= j < moved_up(s, sel).len() ==> s.contains(#[trigger] moved_up(s, sel)[j]),
{
    lemma_up_scan_members(s, sel);
}

/// Every frame of `kept(s, sel)` is a frame of `s`.
pub proof fn lemma_kept_subset(s: Seq<FrameItem>, sel: Set<u64>)
    ensures
        forall|j: int| 0 <= j < kept(s, sel).len() ==> s.contains(#[trigger] kept(s, sel)[j]),
        forall|j: int| 0 <= j < kept(s, sel).len() ==> !sel.contains(#[trigger] kept(s, sel)[j].id),
    decreases s.len(),
{
    if s.len() > 0 {
        lemma_kept_subset(s.drop_last(), sel);
        assert forall|j: int| 0 <= j < kept(s, sel).len() implies s.contains(#[trigger] kept(s, sel)[j]) by {
            if j < kept(s.drop_last(), sel).len() {
                let w = choose|w: int| 0 <= w < s.drop_last().len() && s.drop_last()[w] == kept(s.drop_last(), sel)[j];
                assert(s[w] == kept(s, sel)[j]);
            } else {
                assert(s[s.len() - 1] == kept(s, sel)[j]);
            }
        }
    }
}

/// The largest id is at least every id, and is the id of some frame when
/// there are frames.
pub proof fn lemma_max_frame_id(s: Seq<FrameItem>)
    ensures
        forall|i: int| 0 <= i < s.len() ==> #[trigger] s[i].id <= max_frame_id(s),
    decreases s.len(),
{
    if s.len() > 0 {
        lemma_max_frame_id(s.drop_last());
        assert forall|i: int| 0 <= i < s.len() implies #[trigger] s[i].id <= max_frame_id(s) by {
            if i < s.len() - 1 {
                assert(s.drop_last()[i] == s[i]);
            }
        }
    }
}

} // verus!
