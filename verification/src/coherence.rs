//! Which frame ids survive each timeline edit, and which new ids appear:
//! the facts behind the editor's promise that its selection only ever
//! names frames of the timeline.
use crate::selection::{clicked, extended_to, listed, range_ids, SelectionMode};
use crate::timeline::{
    chosen, drop_position, duplicated, fresh_ids, frame_ids, imported_frames, kept, map_first, map_selected,
    relabeled,
};
use crate::timeline_laws::lemma_push_parts;
use crate::types::FrameItem;
use vstd::prelude::*;

verus! {

/// Whether some frame of `s` has id `x`.
pub open spec fn has_id(s: Seq<FrameItem>, x: u64) -> bool {
    exists|j: int| 0 <= j < s.len() && #[trigger] s[j].id == x
}

/// Every id of `s` is an id of `t`.
pub open spec fn ids_preserved(s: Seq<FrameItem>, t: Seq<FrameItem>) -> bool {
    forall|x: u64| has_id(s, x) ==> #[trigger] has_id(t, x)
}

/// Every one of the `n` ids from `first` is an id of `t`.
pub open spec fn fresh_present(t: Seq<FrameItem>, first: u64, n: nat) -> bool {
    forall|i: int| 0 <= i < n ==> #[trigger] has_id(t, fresh_ids(first, n)[i])
}

/// An id is listed among the frame ids exactly when a frame has it.
pub proof fn lemma_listed_has_id(s: Seq<FrameItem>, x: u64)
    ensures
        listed(frame_ids(s), x) <==> has_id(s, x),
{
    if listed(frame_ids(s), x) {
        let j = choose|j: int| 0 <= j < frame_ids(s).len() && frame_ids(s)[j] == x;
        assert(s[j].id == x);
    }
    if has_id(s, x) {
        let j = choose|j: int| 0 <= j < s.len() && #[trigger] s[j].id == x;
        assert(frame_ids(s)[j] == x);
    }
}

/// Every selected frame lies in `chosen`, every other one in `kept`, and
/// both hold only frames of `s`.
pub proof fn lemma_parts_cover(s: Seq<FrameItem>, sel: Set<u64>)
    ensures
        forall|j: int| 0 <= j < s.len() && sel.contains(#[trigger] s[j].id) ==> chosen(s, sel).contains(s[j]),
        forall|j: int| 0 <= j < s.len() && !sel.contains(#[trigger] s[j].id) ==> kept(s, sel).contains(s[j]),
        forall|k: int| 0 <= k < chosen(s, sel).len() ==> s.contains(#[trigger] chosen(s, sel)[k]),
        forall|k: int| 0 <= k < kept(s, sel).len() ==> s.contains(#[trigger] kept(s, sel)[k]),
    decreases s.len(),
{
    if s.len() > 0 {
        let p = s.drop_last();
        let f = s.last();
        lemma_parts_cover(p, sel);
        assert(p.push(f) =~= s);
        lemma_push_parts(p, sel, f);
        assert forall|j: int| 0 <= j < s.len() && sel.contains(#[trigger] s[j].id) implies chosen(s, sel).contains(
            s[j],
        ) by {
            if j < p.len() {
                assert(p[j] == s[j]);
                let w = choose|w: int| 0 <= w < chosen(p, sel).len() && chosen(p, sel)[w] == s[j];
                assert(chosen(s, sel)[w] == s[j]);
            } else {
                assert(chosen(s, sel)[chosen(s, sel).len() - 1] == s[j]);
            }
        }
        assert forall|j: int| 0 <= j < s.len() && !sel.contains(#[trigger] s[j].id) implies kept(s, sel).contains(
            s[j],
        ) by {
            if j < p.len() {
                assert(p[j] == s[j]);
                let w = choose|w: int| 0 <= w < kept(p, sel).len() && kept(p, sel)[w] == s[j];
                assert(kept(s, sel)[w] == s[j]);
            } else {
                assert(kept(s, sel)[kept(s, sel).len() - 1] == s[j]);
            }
        }
        assert forall|k: int| 0 <= k < chosen(s, sel).len() implies s.contains(#[trigger] chosen(s, sel)[k]) by {
            if k < chosen(p, sel).len() {
                let w = choose|w: int| 0 <= w < p.len() && p[w] == chosen(p, sel)[k];
                assert(s[w] == chosen(s, sel)[k]);
            } else {
                assert(s[s.len() - 1] == chosen(s, sel)[k]);
            }
        }
        assert forall|k: int| 0 <= k < kept(s, sel).len() implies s.contains(#[trigger] kept(s, sel)[k]) by {
            if k < kept(p, sel).len() {
                let w = choose|w: int| 0 <= w < p.len() && p[w] == kept(p, sel)[k];
                assert(s[w] == kept(s, sel)[k]);
            } else {
                assert(s[s.len() - 1] == kept(s, sel)[k]);
            }
        }
    }
}

/// A reordering that keeps both the selected and the unselected frames
/// keeps every id.
pub proof fn lemma_same_parts_keep_ids(s: Seq<FrameItem>, t: Seq<FrameItem>, sel: Set<u64>)
    requires
        chosen(t, sel) == chosen(s, sel),
        kept(t, sel) == kept(s, sel),
    ensures
        ids_preserved(s, t),
{
    lemma_parts_cover(s, sel);
    lemma_parts_cover(t, sel);
    assert forall|x: u64| has_id(s, x) implies #[trigger] has_id(t, x) by {
        let j = choose|j: int| 0 <= j < s.len() && #[trigger] s[j].id == x;
        if sel.contains(s[j].id) {
            let w = choose|w: int| 0 <= w < chosen(s, sel).len() && chosen(s, sel)[w] == s[j];
            assert(t.contains(chosen(t, sel)[w]));
            let v = choose|v: int| 0 <= v < t.len() && t[v] == chosen(t, sel)[w];
            assert(t[v].id == x);
        } else {
            let w = choose|w: int| 0 <= w < kept(s, sel).len() && kept(s, sel)[w] == s[j];
            assert(t.contains(kept(t, sel)[w]));
            let v = choose|v: int| 0 <= v < t.len() && t[v] == kept(t, sel)[w];
            assert(t[v].id == x);
        }
    }
}

/// Moving one frame to another position keeps every id.
pub proof fn lemma_drop_keeps_ids(s: Seq<FrameItem>, c: int, p: int)
    requires
        0 <= c < s.len(),
        0 <= p <= s.len() - 1,
    ensures
        ids_preserved(s, s.remove(c).insert(p, s[c])),
{
    let r = s.remove(c);
    let t = r.insert(p, s[c]);
    assert forall|x: u64| has_id(s, x) implies #[trigger] has_id(t, x) by {
        let j = choose|j: int| 0 <= j < s.len() && #[trigger] s[j].id == x;
        if j == c {
            assert(t[p] == s[c]);
        } else {
            let k = if j < c {
                j
            } else {
                j - 1
            };
            assert(r[k] == s[j]);
            if k < p {
                assert(t[k] == r[k]);
                assert(t[k].id == x);
            } else {
                assert(t[k + 1] == r[k]);
                assert(t[k + 1].id == x);
            }
        }
    }
}

/// Duplicating keeps every id and adds the ids of the copies.
pub proof fn lemma_duplicated_ids_present(s: Seq<FrameItem>, sel: Set<u64>, first: u64)
    requires
        first + chosen(s, sel).len() <= u64::MAX,
    ensures
        ids_preserved(s, duplicated(s, sel, first)),
        fresh_present(duplicated(s, sel, first), first, chosen(s, sel).len()),
    decreases s.len(),
{
    if s.len() > 0 {
        let p = s.drop_last();
        let f = s.last();
        let dp = duplicated(p, sel, first);
        let d = duplicated(s, sel, first);
        let n = chosen(s, sel).len();
        let np = chosen(p, sel).len();
        assert(np <= n);
        lemma_duplicated_ids_present(p, sel, first);
        assert(forall|k: int| 0 <= k < dp.len() ==> #[trigger] d[k] == dp[k]);
        assert forall|x: u64| has_id(s, x) implies #[trigger] has_id(d, x) by {
            let j = choose|j: int| 0 <= j < s.len() && #[trigger] s[j].id == x;
            if j < p.len() {
                assert(p[j].id == x);
                assert(has_id(p, x));
                assert(has_id(dp, x));
                let w = choose|w: int| 0 <= w < dp.len() && #[trigger] dp[w].id == x;
                assert(d[w].id == x);
            } else {
                assert(d[dp.len() as int] == f);
            }
        }
        assert forall|i: int| 0 <= i < n implies #[trigger] has_id(d, fresh_ids(first, n)[i]) by {
            if i < np {
                assert(fresh_ids(first, n)[i] == fresh_ids(first, np)[i]);
                assert(has_id(dp, fresh_ids(first, np)[i]));
                let w = choose|w: int| 0 <= w < dp.len() && #[trigger] dp[w].id == fresh_ids(first, np)[i];
                assert(d[w].id == fresh_ids(first, n)[i]);
            } else {
                assert(sel.contains(f.id));
                assert(d[dp.len() + 1int].id == fresh_ids(first, n)[i]);
            }
        }
    }
}

/// Appending copies keeps every id and adds the ids of the copies.
pub proof fn lemma_appended_ids(s: Seq<FrameItem>, src: Seq<FrameItem>, first: u64)
    requires
        first + src.len() <= u64::MAX,
    ensures
        ids_preserved(s, s + relabeled(src, first)),
        fresh_present(s + relabeled(src, first), first, src.len()),
{
    let t = s + relabeled(src, first);
    assert forall|x: u64| has_id(s, x) implies #[trigger] has_id(t, x) by {
        let j = choose|j: int| 0 <= j < s.len() && #[trigger] s[j].id == x;
        assert(t[j] == s[j]);
    }
    assert forall|i: int| 0 <= i < src.len() implies #[trigger] has_id(t, fresh_ids(first, src.len())[i]) by {
        assert(t[s.len() + i].id == fresh_ids(first, src.len())[i]);
    }
}

/// Pasting keeps every id and adds the ids of the copies.
pub proof fn lemma_pasted_ids(s: Seq<FrameItem>, a: int, src: Seq<FrameItem>, first: u64)
    requires
        0 <= a <= s.len(),
        first + src.len() <= u64::MAX,
    ensures
        ids_preserved(s, s.take(a) + relabeled(src, first) + s.skip(a)),
        fresh_present(s.take(a) + relabeled(src, first) + s.skip(a), first, src.len()),
{
    let t = s.take(a) + relabeled(src, first) + s.skip(a);
    assert forall|x: u64| has_id(s, x) implies #[trigger] has_id(t, x) by {
        let j = choose|j: int| 0 <= j < s.len() && #[trigger] s[j].id == x;
        if j < a {
            assert(t[j] == s[j]);
        } else {
            assert(t[j + src.len()] == s[j]);
        }
    }
    assert forall|i: int| 0 <= i < src.len() implies #[trigger] has_id(t, fresh_ids(first, src.len())[i]) by {
        assert(t[a + i].id == fresh_ids(first, src.len())[i]);
    }
}

/// Imported frames carry the new ids.
pub proof fn lemma_imported_ids(before: Seq<FrameItem>, paths: Seq<String>, first: u64)
    requires
        first + paths.len() <= u64::MAX,
    ensures
        ids_preserved(before, before + imported_frames(paths, first)),
        fresh_present(before + imported_frames(paths, first), first, paths.len()),
        ids_preserved(before, imported_frames(paths, first) + before),
        fresh_present(imported_frames(paths, first) + before, first, paths.len()),
        fresh_present(imported_frames(paths, first), first, paths.len()),
{
    let m = imported_frames(paths, first);
    let t1 = before + m;
    let t2 = m + before;
    assert forall|x: u64| has_id(before, x) implies #[trigger] has_id(t1, x) by {
        let j = choose|j: int| 0 <= j < before.len() && #[trigger] before[j].id == x;
        assert(t1[j] == before[j]);
    }
    assert forall|x: u64| has_id(before, x) implies #[trigger] has_id(t2, x) by {
        let j = choose|j: int| 0 <= j < before.len() && #[trigger] before[j].id == x;
        assert(t2[m.len() + j] == before[j]);
    }
    assert forall|i: int| 0 <= i < paths.len() implies #[trigger] has_id(t1, fresh_ids(first, paths.len())[i]) by {
        assert(t1[before.len() + i].id == fresh_ids(first, paths.len())[i]);
    }
    assert forall|i: int| 0 <= i < paths.len() implies #[trigger] has_id(t2, fresh_ids(first, paths.len())[i]) by {
        assert(t2[i].id == fresh_ids(first, paths.len())[i]);
    }
    assert forall|i: int| 0 <= i < paths.len() implies #[trigger] has_id(m, fresh_ids(first, paths.len())[i]) by {
        assert(m[i].id == fresh_ids(first, paths.len())[i]);
    }
}

/// Changing the selected frames without touching their ids keeps every id.
pub proof fn lemma_map_selected_ids(s: Seq<FrameItem>, sel: Set<u64>, f: spec_fn(FrameItem) -> FrameItem)
    requires
        forall|g: FrameItem| #[trigger] f(g).id == g.id,
    ensures
        ids_preserved(s, map_selected(s, sel, f)),
{
    let t = map_selected(s, sel, f);
    assert forall|x: u64| has_id(s, x) implies #[trigger] has_id(t, x) by {
        let j = choose|j: int| 0 <= j < s.len() && #[trigger] s[j].id == x;
        assert(t[j].id == x);
    }
}

/// Changing one frame without touching its id keeps every id.
pub proof fn lemma_map_first_ids(s: Seq<FrameItem>, id: u64, f: spec_fn(FrameItem) -> FrameItem)
    requires
        forall|g: FrameItem| #[trigger] f(g).id == g.id,
    ensures
        ids_preserved(s, map_first(s, id, f)),
{
    let t = map_first(s, id, f);
    frame_ids(s).index_of_first_ensures(id);
    assert forall|x: u64| has_id(s, x) implies #[trigger] has_id(t, x) by {
        let j = choose|j: int| 0 <= j < s.len() && #[trigger] s[j].id == x;
        match frame_ids(s).index_of_first(id) {
            Some(i) => {
                assert(t.len() == s.len());
                if i == j {
                    assert(t[j] == f(s[j]));
                } else {
                    assert(t[j] == s[j]);
                }
                assert(t[j].id == x);
            },
            None => {
                assert(t[j].id == x);
            },
        }
    }
}

/// A click selects only frames that were selected or are frames of the
/// timeline, and anchors at the old anchor or at a frame of the timeline.
pub proof fn lemma_click_stays_on_timeline(
    ids: Seq<u64>,
    sel: Set<u64>,
    anchor: Option<u64>,
    id: u64,
    mode: SelectionMode,
)
    ensures
        forall|x: u64| #[trigger] clicked(ids, sel, anchor, id, mode).0.contains(x) ==> sel.contains(x) || listed(ids, x),
        clicked(ids, sel, anchor, id, mode).1 == anchor || (clicked(ids, sel, anchor, id, mode).1 matches Some(a)
            && listed(ids, a)),
{
    if listed(ids, id) {
        match mode {
            SelectionMode::Plain => {},
            SelectionMode::Ctrl => {},
            _ => {
                assert forall|x: u64| #[trigger] extended_to(ids, sel, anchor, id).0.contains(x) implies sel.contains(
                    x,
                ) || listed(ids, x) by {
                    match anchor {
                        Some(a) if listed(ids, a) => {
                            if !sel.contains(x) {
                                let pa = crate::selection::pos(ids, a);
                                let pt = crate::selection::pos(ids, id);
                                let lo = if pa <= pt {
                                    pa
                                } else {
                                    pt
                                };
                                let hi = if pa <= pt {
                                    pt
                                } else {
                                    pa
                                };
                                assert(range_ids(ids, lo, hi).contains(x));
                                let k = choose|k: int| lo <= k <= hi && 0 <= k < ids.len() && ids[k] == x;
                                assert(ids[k] == x);
                            }
                        },
                        _ => {},
                    }
                }
            },
        }
    }
}

} // verus!
