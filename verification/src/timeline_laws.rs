//! What every timeline edit keeps: order, membership and fresh numbering.
use crate::timeline::{
    chosen, drop_position, duplicated, fresh_ids, kept, lemma_last_selected_in_range, moved_down, moved_up, paste_position,
    relabeled, repeated, rounds, up_scan, Timeline,
};
use crate::types::FrameItem;
use vstd::prelude::*;

verus! {

/// The held frame of the upward scan, as a sequence of at most one frame.
pub open spec fn held_frames(h: Option<FrameItem>) -> Seq<FrameItem> {
    match h {
        Some(u) => seq![u],
        None => Seq::empty(),
    }
}

/// Splitting a timeline into its selected and unselected frames loses none.
pub proof fn lemma_chosen_kept_len(s: Seq<FrameItem>, sel: Set<u64>)
    ensures
        chosen(s, sel).len() + kept(s, sel).len() == s.len(),
    decreases s.len(),
{
    if s.len() > 0 {
        lemma_chosen_kept_len(s.drop_last(), sel);
    }
}

/// Appending one frame appends it to the selected or the unselected part.
pub proof fn lemma_push_parts(s: Seq<FrameItem>, sel: Set<u64>, f: FrameItem)
    ensures
        chosen(s.push(f), sel) == if sel.contains(f.id) {
            chosen(s, sel).push(f)
        } else {
            chosen(s, sel)
        },
        kept(s.push(f), sel) == if sel.contains(f.id) {
            kept(s, sel)
        } else {
            kept(s, sel).push(f)
        },
{
    assert(s.push(f).drop_last() =~= s);
}

/// Selecting from two timelines one after the other.
pub proof fn lemma_parts_concat(a: Seq<FrameItem>, b: Seq<FrameItem>, sel: Set<u64>)
    ensures
        chosen(a + b, sel) == chosen(a, sel) + chosen(b, sel),
        kept(a + b, sel) == kept(a, sel) + kept(b, sel),
    decreases b.len(),
{
    if b.len() == 0 {
        assert(a + b =~= a);
        assert(chosen(a, sel) + chosen(b, sel) =~= chosen(a, sel));
        assert(kept(a, sel) + kept(b, sel) =~= kept(a, sel));
    } else {
        let p = b.drop_last();
        let f = b.last();
        lemma_parts_concat(a, p, sel);
        assert((a + p).push(f) =~= a + b);
        assert(p.push(f) =~= b);
        lemma_push_parts(a + p, sel, f);
        lemma_push_parts(p, sel, f);
        assert((chosen(a, sel) + chosen(p, sel)).push(f) =~= chosen(a, sel) + chosen(p, sel).push(f));
        assert((kept(a, sel) + kept(p, sel)).push(f) =~= kept(a, sel) + kept(p, sel).push(f));
    }
}

/// Selecting from a reversed timeline gives the selection reversed.
pub proof fn lemma_parts_reverse(s: Seq<FrameItem>, sel: Set<u64>)
    ensures
        chosen(s.reverse(), sel) == chosen(s, sel).reverse(),
        kept(s.reverse(), sel) == kept(s, sel).reverse(),
    decreases s.len(),
{
    if s.len() == 0 {
        assert(s.reverse() =~= s);
        assert(chosen(s, sel).reverse() =~= chosen(s, sel));
        assert(kept(s, sel).reverse() =~= kept(s, sel));
    } else {
        let p = s.drop_last();
        let f = s.last();
        let one = seq![f];
        lemma_parts_reverse(p, sel);
        assert(s.reverse() =~= one + p.reverse());
        lemma_parts_concat(one, p.reverse(), sel);
        assert(one =~= Seq::<FrameItem>::empty().push(f));
        lemma_push_parts(Seq::<FrameItem>::empty(), sel, f);
        assert(p.push(f) =~= s);
        lemma_push_parts(p, sel, f);
        if sel.contains(f.id) {
            assert(chosen(p, sel).push(f).reverse() =~= one + chosen(p, sel).reverse());
            assert(kept(one, sel) =~= Seq::<FrameItem>::empty());
            assert(kept(one, sel) + kept(p, sel).reverse() =~= kept(p, sel).reverse());
        } else {
            assert(kept(p, sel).push(f).reverse() =~= one + kept(p, sel).reverse());
            assert(chosen(one, sel) =~= Seq::<FrameItem>::empty());
            assert(chosen(one, sel) + chosen(p, sel).reverse() =~= chosen(p, sel).reverse());
        }
    }
}

/// The upward scan emits every selected frame in order; the unselected
/// ones it emits, followed by the one it holds, are the unselected frames in
/// order.
pub proof fn lemma_up_scan_parts(s: Seq<FrameItem>, sel: Set<u64>)
    ensures
        chosen(up_scan(s, sel).0, sel) == chosen(s, sel),
        kept(up_scan(s, sel).0, sel) + held_frames(up_scan(s, sel).1) == kept(s, sel),
        up_scan(s, sel).1 matches Some(u) ==> !sel.contains(u.id),
    decreases s.len(),
{
    if s.len() == 0 {
        assert(kept(s, sel) + held_frames(None) =~= kept(s, sel));
    } else {
        let p = s.drop_last();
        let f = s.last();
        let (out, held) = up_scan(p, sel);
        lemma_up_scan_parts(p, sel);
        assert(p.push(f) =~= s);
        lemma_push_parts(p, sel, f);
        if sel.contains(f.id) {
            lemma_push_parts(out, sel, f);
        } else {
            match held {
                Some(u) => {
                    lemma_push_parts(out, sel, u);
                    assert(kept(out, sel).push(u) + seq![f] =~= (kept(out, sel) + seq![u]).push(f));
                },
                None => {
                    assert(kept(out, sel) + seq![f] =~= (kept(out, sel) + held_frames(held)).push(f));
                },
            }
        }
    }
}

/// Moving the selection up keeps the selected frames in their order, keeps
/// the unselected frames in their order, and keeps the number of frames.
pub proof fn law_move_up_keeps_both_orders(s: Seq<FrameItem>, sel: Set<u64>)
    ensures
        chosen(moved_up(s, sel), sel) == chosen(s, sel),
        kept(moved_up(s, sel), sel) == kept(s, sel),
        moved_up(s, sel).len() == s.len(),
{
    let (out, held) = up_scan(s, sel);
    lemma_up_scan_parts(s, sel);
    match held {
        Some(u) => {
            lemma_push_parts(out, sel, u);
            assert(kept(out, sel).push(u) =~= kept(out, sel) + held_frames(held));
        },
        None => {
            assert(kept(out, sel) + held_frames(held) =~= kept(out, sel));
        },
    }
    lemma_chosen_kept_len(moved_up(s, sel), sel);
    lemma_chosen_kept_len(s, sel);
}

/// Moving the selection down keeps the selected frames in their order,
/// keeps the unselected frames in their order, and keeps the number of
/// frames.
pub proof fn law_move_down_keeps_both_orders(s: Seq<FrameItem>, sel: Set<u64>)
    ensures
        chosen(moved_down(s, sel), sel) == chosen(s, sel),
        kept(moved_down(s, sel), sel) == kept(s, sel),
        moved_down(s, sel).len() == s.len(),
{
    let r = s.reverse();
    let m = moved_up(r, sel);
    law_move_up_keeps_both_orders(r, sel);
    lemma_parts_reverse(m, sel);
    lemma_parts_reverse(s, sel);
    assert(chosen(s, sel).reverse().reverse() =~= chosen(s, sel));
    assert(kept(s, sel).reverse().reverse() =~= kept(s, sel));
}

/// Duplicating adds exactly one copy per selected frame and leaves the
/// unselected frames in their order.
pub proof fn law_duplicate_adds_one_copy_each(s: Seq<FrameItem>, sel: Set<u64>, first: u64)
    ensures
        duplicated(s, sel, first).len() == s.len() + chosen(s, sel).len(),
    decreases s.len(),
{
    if s.len() > 0 {
        law_duplicate_adds_one_copy_each(s.drop_last(), sel, first);
    }
}

/// Removing the selection leaves exactly the unselected frames, so none of
/// the removed ids remain and the count drops by the number selected.
pub proof fn law_remove_leaves_no_selected_frame(s: Seq<FrameItem>, sel: Set<u64>)
    ensures
        forall|j: int| 0 <= j < kept(s, sel).len() ==> !sel.contains(#[trigger] kept(s, sel)[j].id),
        kept(s, sel).len() == s.len() - chosen(s, sel).len(),
{
    crate::timeline::lemma_kept_subset(s, sel);
    lemma_chosen_kept_len(s, sel);
}

/// Repeating a source `r` times gives `r` times as many frames.
pub proof fn law_repeat_count(src: Seq<FrameItem>, r: nat)
    ensures
        repeated(src, r).len() == r * src.len(),
    decreases r,
{
    if r > 0 {
        law_repeat_count(src, (r - 1) as nat);
        assert(repeated(src, r).len() == repeated(src, (r - 1) as nat).len() + src.len());
        assert((r - 1) * src.len() + src.len() == r * src.len()) by (nonlinear_arith);
    } else {
        assert(r * src.len() == 0) by (nonlinear_arith)
            requires
                r == 0,
        ;
    }
}

/// Frames created by a well-formed timeline never reuse an id that a frame
/// of the timeline already has.
pub proof fn law_new_ids_are_unused(t: Timeline, n: nat)
    requires
        t.wf(),
        t.next_id() + n <= u64::MAX,
    ensures
        forall|i: int, j: int|
            0 <= i < n && 0 <= j < t@.len() ==> #[trigger] fresh_ids(t.next_id(), n)[i] != #[trigger] t@[j].id,
{
}

/// No two frames share an id.
pub open spec fn distinct_ids(s: Seq<FrameItem>) -> bool {
    forall|i: int, j: int| 0 <= i < j < s.len() ==> #[trigger] s[i].id != #[trigger] s[j].id
}

/// Inserting copies numbered from `first` at any position of a timeline
/// whose ids are distinct and below `first` keeps the ids distinct.
pub proof fn lemma_insert_fresh_distinct(s: Seq<FrameItem>, p: int, src: Seq<FrameItem>, first: u64)
    requires
        distinct_ids(s),
        0 <= p <= s.len(),
        forall|i: int| 0 <= i < s.len() ==> #[trigger] s[i].id < first,
        first + src.len() <= u64::MAX,
    ensures
        distinct_ids(s.take(p) + relabeled(src, first) + s.skip(p)),
{
    let t = s.take(p) + relabeled(src, first) + s.skip(p);
    let n = src.len() as int;
    assert(t.len() == s.len() + n);
    assert forall|k: int| 0 <= k < t.len() implies #[trigger] t[k].id == (if k < p {
        s[k].id as int
    } else if k < p + n {
        first + (k - p)
    } else {
        s[k - n].id as int
    }) by {
        if k < p {
            assert(t[k] == s[k]);
        } else if k < p + n {
            assert(t[k] == relabeled(src, first)[k - p]);
        } else {
            assert(t[k] == s.skip(p)[k - p - n]);
        }
    }
    assert forall|i: int, j: int| 0 <= i < j < t.len() implies #[trigger] t[i].id != #[trigger] t[j].id by {
        if i < p {
            if j < p {
                assert(s[i].id != s[j].id);
            } else if j >= p + n {
                assert(s[i].id != s[j - n].id);
            }
        } else if i >= p + n {
            assert(s[i - n].id != s[j - n].id);
        } else if j >= p + n {
            assert(s[j - n].id < first);
        }
    }
}

/// Pasting keeps the ids of the timeline distinct, and none of the pasted
/// frames' ids was in use before.
pub proof fn law_paste_keeps_ids_distinct(t: Timeline, sel: Set<u64>, clipboard: Seq<FrameItem>)
    requires
        t.wf(),
        distinct_ids(t@),
        t.next_id() + clipboard.len() <= u64::MAX,
    ensures
        ({
            let a = paste_position(sel, t@);
            distinct_ids(t@.take(a) + relabeled(clipboard, t.next_id()) + t@.skip(a))
        }),
        forall|i: int, j: int|
            0 <= i < clipboard.len() && 0 <= j < t@.len() ==> #[trigger] fresh_ids(t.next_id(), clipboard.len())[i]
                != #[trigger] t@[j].id,
{
    lemma_last_selected_in_range(sel, t@);
    lemma_insert_fresh_distinct(t@, paste_position(sel, t@), clipboard, t.next_id());
}

/// `s` with the frames at `k - 1` and `k` exchanged.
pub open spec fn swapped(s: Seq<FrameItem>, k: int) -> Seq<FrameItem> {
    s.update(k - 1, s[k]).update(k, s[k - 1])
}

/// The upward scan over the first `m` frames when exactly the frame at
/// `k` (not the first) is selected.
proof fn lemma_up_scan_single(s: Seq<FrameItem>, sel: Set<u64>, k: int, m: int)
    requires
        1 <= k < s.len(),
        sel == set![s[k].id],
        distinct_ids(s),
        0 <= m <= s.len(),
    ensures
        up_scan(s.take(m), sel) == if m == 0 {
            (Seq::<FrameItem>::empty(), None::<FrameItem>)
        } else if m <= k {
            (s.take(m - 1), Some(s[m - 1]))
        } else {
            (swapped(s, k).take(m - 1), Some(swapped(s, k)[m - 1]))
        },
    decreases m,
{
    if m == 0 {
        assert(s.take(0) =~= Seq::<FrameItem>::empty());
    } else {
        lemma_up_scan_single(s, sel, k, m - 1);
        let t = s.take(m);
        assert(t.drop_last() =~= s.take(m - 1));
        assert(t.last() == s[m - 1]);
        let w = swapped(s, k);
        if m <= k {
            assert(!sel.contains(s[m - 1].id)) by {
                assert(s[m - 1].id != s[k].id);
            }
            if m - 1 == 0 {
                assert(s.take(0) =~= Seq::<FrameItem>::empty());
            } else {
                assert(s.take(m - 2).push(s[m - 2]) =~= s.take(m - 1));
            }
        } else if m == k + 1 {
            assert(sel.contains(s[m - 1].id));
            assert(s.take(k - 1).push(s[k]) =~= w.take(k));
        } else {
            assert(!sel.contains(s[m - 1].id)) by {
                assert(s[k].id != s[m - 1].id);
            }
            assert(w.take(m - 2).push(w[m - 2]) =~= w.take(m - 1));
            assert(w[m - 1] == s[m - 1]);
        }
    }
}

/// Moving up the one selected frame at `k` (not the first) exchanges it
/// with the frame before it.
proof fn lemma_move_up_single(s: Seq<FrameItem>, k: int)
    requires
        1 <= k < s.len(),
        distinct_ids(s),
    ensures
        moved_up(s, set![s[k].id]) == swapped(s, k),
{
    let n = s.len() as int;
    lemma_up_scan_single(s, set![s[k].id], k, n);
    assert(s.take(n) =~= s);
    let w = swapped(s, k);
    assert(w.take(n - 1).push(w[n - 1]) =~= w);
}

/// Moving one frame (not the first) up and then down again restores the
/// timeline, when no two frames share an id.
pub proof fn law_move_up_then_down_restores(s: Seq<FrameItem>, k: int)
    requires
        1 <= k < s.len(),
        distinct_ids(s),
    ensures
        moved_down(moved_up(s, set![s[k].id]), set![s[k].id]) == s,
{
    let n = s.len() as int;
    let sel = set![s[k].id];
    lemma_move_up_single(s, k);
    let w = swapped(s, k);
    let r = w.reverse();
    assert(r.len() == n);
    assert(r[n - k] == s[k]);
    assert(distinct_ids(r)) by {
        assert forall|i: int, j: int| 0 <= i < j < r.len() implies #[trigger] r[i].id != #[trigger] r[j].id by {
            let a = n - 1 - i;
            let b = n - 1 - j;
            assert(r[i] == w[a]);
            assert(r[j] == w[b]);
            let sa = if a == k - 1 { k } else if a == k { k - 1 } else { a };
            let sb = if b == k - 1 { k } else if b == k { k - 1 } else { b };
            assert(w[a] == s[sa]);
            assert(w[b] == s[sb]);
            if sa < sb {
                assert(s[sa].id != s[sb].id);
            } else {
                assert(s[sb].id != s[sa].id);
            }
        }
    }
    lemma_move_up_single(r, n - k);
    assert(swapped(r, n - k).reverse() =~= s);
}

/// `src` repeated `r` times is `r` rounds of `src`, one after another.
pub proof fn law_repeated_rounds(src: Seq<FrameItem>, r: nat)
    ensures
        repeated(src, r).len() == r * src.len(),
        forall|i: int| 0 <= i < repeated(src, r).len() ==> #[trigger] repeated(src, r)[i] == src[i % src.len() as int],
    decreases r,
{
    law_repeat_count(src, r);
    if r > 0 {
        law_repeat_count(src, (r - 1) as nat);
        law_repeated_rounds(src, (r - 1) as nat);
        let n = src.len() as int;
        let before = repeated(src, (r - 1) as nat);
        assert forall|i: int| 0 <= i < repeated(src, r).len() implies #[trigger] repeated(src, r)[i] == src[i % n] by {
            if i >= before.len() {
                let q = (r - 1) as int;
                assert(before.len() == q * n);
                assert(i - q * n == i % n) by (nonlinear_arith)
                    requires
                        q * n <= i < q * n + n,
                        n > 0,
                ;
            }
        }
    }
}

/// Copying a source `r` times appends `rounds(r)` rounds of it (one round
/// for `r` of zero or one), numbered on from `first`: `n * rounds(r)` new
/// frames, the `i`-th a copy of the source's frame `i % n` with id
/// `first + i`.
pub proof fn law_copies_round_by_round(s: Seq<FrameItem>, src: Seq<FrameItem>, r: u32, first: u64)
    requires
        first + rounds(r) * src.len() <= u64::MAX,
    ensures
        rounds(0) == rounds(1),
        ({
            let t = s + relabeled(repeated(src, rounds(r)), first);
            &&& t.len() == s.len() + rounds(r) * src.len()
            &&& forall|i: int| 0 <= i < s.len() ==> #[trigger] t[i] == s[i]
            &&& forall|i: int|
                0 <= i < rounds(r) * src.len() ==> #[trigger] t[s.len() + i] == src[i % src.len() as int].with_id(
                    (first + i) as u64,
                )
        }),
{
    law_repeated_rounds(src, rounds(r));
    let t = s + relabeled(repeated(src, rounds(r)), first);
    assert forall|i: int| 0 <= i < rounds(r) * src.len() implies #[trigger] t[s.len() + i] == src[i
        % src.len() as int].with_id((first + i) as u64) by {
        assert(t[s.len() + i] == relabeled(repeated(src, rounds(r)), first)[i]);
        assert(repeated(src, rounds(r))[i] == src[i % src.len() as int]);
    }
}

/// `r` is `s` with its frame at `c` taken out and put back right before the
/// frame that was at `t`, or last when `t` is past the end; the other
/// frames keep their order.
pub open spec fn lands_before(s: Seq<FrameItem>, c: int, t: int, r: Seq<FrameItem>) -> bool {
    exists|p: int|
        0 <= p < r.len() && r[p] == s[c] && #[trigger] r.remove(p) == s.remove(c) && (t < s.len() ==> p + 1
            < r.len() && r[p + 1] == s[t]) && (t >= s.len() ==> p == r.len() - 1)
}

/// Dropping the frame at `c` onto position `t` (`t` counted before the
/// move) puts it right before the frame that was at `t`, or last when `t`
/// is past the end; the other frames keep their order.
pub proof fn law_drop_lands_before_target(s: Seq<FrameItem>, c: int, t: int)
    requires
        0 <= c < s.len(),
        0 <= t,
        ({
            let cl = if t < s.len() {
                t
            } else {
                s.len() as int
            };
            cl != c && cl != c + 1
        }),
    ensures
        lands_before(s, c, t, s.remove(c).insert(drop_position(c, t, s.len() as int), s[c])),
{
    let n = s.len() as int;
    let q = s.remove(c);
    let p = drop_position(c, t, n);
    assert(0 <= p <= q.len());
    let r = q.insert(p, s[c]);
    assert(r.remove(p) =~= q);
    assert(r[p] == s[c]);
    if t < n {
        assert(r[p + 1] == q[p]);
        if c < t {
            assert(q[p] == s[p + 1]);
        } else {
            assert(q[p] == s[p]);
        }
    }
}

} // verus!
