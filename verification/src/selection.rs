//! Timeline selection: plain, Ctrl and Shift clicks, keyboard extension,
//! select-all, clear and invert, over the timeline's frame ids in order.
use std::collections::BTreeSet;
use vstd::prelude::*;

verus! {

broadcast use {vstd::std_specs::btree::group_btree_axioms, vstd::laws_cmp::group_laws_cmp};

/// The modifier keys held during a click.
#[derive(Debug, Clone, Copy, PartialEq, Eq, Structural)]
pub enum SelectionMode {
    Plain,
    Ctrl,
    Shift,
    CtrlShift,
}

/// The selected frame ids and the anchor that range selection extends from.
#[derive(Debug, Clone)]
pub struct SelectionState {
    pub selection: BTreeSet<u64>,
    pub anchor_id: Option<u64>,
}

/// Whether `ids` contains `id`.
pub open spec fn listed(ids: Seq<u64>, id: u64) -> bool {
    ids.contains(id)
}

/// The first id of `ids` that lies in `s`, if any.
pub open spec fn first_member(ids: Seq<u64>, s: Set<u64>) -> Option<u64>
    decreases ids.len(),
{
    if ids.len() == 0 {
        None
    } else if s.contains(ids[0]) {
        Some(ids[0])
    } else {
        first_member(ids.drop_first(), s)
    }
}

/// The ids of `ids` between positions `lo` and `hi`, both included.
pub open spec fn range_ids(ids: Seq<u64>, lo: int, hi: int) -> Set<u64> {
    Set::new(|id: u64| exists|k: int| lo <= k <= hi && 0 <= k < ids.len() && ids[k] == id)
}

/// The position of the first unselected id at or after `j`.
pub open spec fn next_unselected(ids: Seq<u64>, sel: Set<u64>, j: int) -> Option<int>
    decreases ids.len() - j,
{
    if j < 0 || j >= ids.len() {
        None
    } else if !sel.contains(ids[j]) {
        Some(j)
    } else {
        next_unselected(ids, sel, j + 1)
    }
}

/// The position of the last unselected id at or before `j`.
pub open spec fn prev_unselected(ids: Seq<u64>, sel: Set<u64>, j: int) -> Option<int>
    decreases j + 1,
{
    if j < 0 || j >= ids.len() {
        None
    } else if !sel.contains(ids[j]) {
        Some(j)
    } else {
        prev_unselected(ids, sel, j - 1)
    }
}

/// The position of the first occurrence of `id` in `ids` (only meaningful
/// when `ids` contains `id`).
pub open spec fn pos(ids: Seq<u64>, id: u64) -> int {
    ids.index_of_first(id).unwrap()
}

/// The selection state that `extend_selection_to` gives.
pub open spec fn extended_to(
    ids: Seq<u64>,
    sel: Set<u64>,
    anchor: Option<u64>,
    target: u64,
) -> (Set<u64>, Option<u64>) {
    if !listed(ids, target) {
        (sel, anchor)
    } else {
        match anchor {
            Some(a) if listed(ids, a) => {
                let pa = pos(ids, a);
                let pt = pos(ids, target);
                let lo = if pa <= pt {
                    pa
                } else {
                    pt
                };
                let hi = if pa <= pt {
                    pt
                } else {
                    pa
                };
                (sel.union(range_ids(ids, lo, hi)), Some(a))
            },
            _ => (set![target], Some(target)),
        }
    }
}

/// The position that a keyboard step from `anchor_index` finds, if any.
pub open spec fn step_found(ids: Seq<u64>, sel: Set<u64>, anchor_index: int, forward: bool) -> Option<int> {
    if forward {
        next_unselected(ids, sel, anchor_index + 1)
    } else {
        prev_unselected(ids, sel, anchor_index - 1)
    }
}

/// The id that a keyboard step of the given direction selects next.
pub open spec fn step_target(ids: Seq<u64>, sel: Set<u64>, anchor_index: int, forward: bool) -> u64 {
    match step_found(ids, sel, anchor_index, forward) {
        Some(j) => ids[j],
        None => ids[anchor_index],
    }
}

/// The selection state that `extend_selection_by_step` gives.
pub open spec fn extended_by_step(
    ids: Seq<u64>,
    sel: Set<u64>,
    anchor: Option<u64>,
    offset: int,
) -> (Set<u64>, Option<u64>) {
    if offset == 0 || ids.len() == 0 {
        (sel, anchor)
    } else {
        let a = match anchor {
            Some(a) if listed(ids, a) => a,
            _ => ids[0],
        };
        let t = step_target(ids, sel, pos(ids, a), offset > 0);
        (sel.insert(t), Some(t))
    }
}

/// The selection state that a click gives.
pub open spec fn clicked(
    ids: Seq<u64>,
    sel: Set<u64>,
    anchor: Option<u64>,
    id: u64,
    mode: SelectionMode,
) -> (Set<u64>, Option<u64>) {
    if !listed(ids, id) {
        (sel, anchor)
    } else {
        match mode {
            SelectionMode::Plain => (set![id], Some(id)),
            SelectionMode::Ctrl => (
                if sel.contains(id) {
                    sel.remove(id)
                } else {
                    sel.insert(id)
                },
                Some(id),
            ),
            _ => extended_to(ids, sel, anchor, id),
        }
    }
}

impl SelectionState {
    pub open spec fn pair(self) -> (Set<u64>, Option<u64>) {
        (self.selection@, self.anchor_id)
    }
}

/// The position of the first occurrence of `id` in `ids`.
fn position_of(ids: &[u64], id: u64) -> (r: Option<usize>)
    ensures
        match r {
            Some(i) => listed(ids@, id) && i as int == pos(ids@, id) && i < ids@.len() && ids@[i as int] == id,
            None => !listed(ids@, id),
        },
{
    let mut i: usize = 0;
    while i < ids.len()
        invariant
            i <= ids@.len(),
            forall|k: int| 0 <= k < i ==> ids@[k] != id,
        decreases ids@.len() - i,
    {
        if ids[i] == id {
            proof {
                ids@.index_of_first_ensures(id);
            }
            return Some(i);
        }
        i += 1;
    }
    None
}

pub(crate) fn copy_set(s: &BTreeSet<u64>) -> (c: BTreeSet<u64>)
    ensures
        c@ == s@,
{
    s.clone()
}

pub(crate) fn singleton(id: u64) -> (s: BTreeSet<u64>)
    ensures
        s@ == set![id],
{
    let mut s = BTreeSet::new();
    s.insert(id);
    assert(s@ =~= set![id]);
    s
}

pub(crate) fn set_from_ids(ids: &[u64]) -> (s: BTreeSet<u64>)
    ensures
        s@ == ids@.to_set(),
{
    let mut s = BTreeSet::new();
    let mut i: usize = 0;
    while i < ids.len()
        invariant
            i <= ids@.len(),
            s@ == ids@.take(i as int).to_set(),
        decreases ids@.len() - i,
    {
        proof {
            assert(ids@.take(i + 1) =~= ids@.take(i as int).push(ids@[i as int]));
            ids@.take(i as int).lemma_push_to_set_commute(ids@[i as int]);
        }
        s.insert(ids[i]);
        i += 1;
    }
    assert(ids@.take(ids@.len() as int) =~= ids@);
    s
}

/// Selects every frame. The anchor stays where it was when it is still a
/// frame of the timeline, else it moves to the first frame.
pub fn select_all(ordered_ids: &[u64], current_anchor_id: Option<u64>) -> (state: SelectionState)
    ensures
        state.selection@ == ordered_ids@.to_set(),
        state.anchor_id == match current_anchor_id {
            Some(a) if listed(ordered_ids@, a) => Some(a),
            _ => if ordered_ids@.len() == 0 {
                None
            } else {
                Some(ordered_ids@[0])
            },
        },
{
    let selection = set_from_ids(ordered_ids);
    let anchor_id = match current_anchor_id {
        Some(a) => {
            if selection.contains(&a) {
                Some(a)
            } else if ordered_ids.len() == 0 {
                None
            } else {
                Some(ordered_ids[0])
            }
        },
        None => {
            if ordered_ids.len() == 0 {
                None
            } else {
                Some(ordered_ids[0])
            }
        },
    };
    SelectionState { selection, anchor_id }
}

/// The empty selection without an anchor.
pub fn clear_selection() -> (state: SelectionState)
    ensures
        state.selection@ == Set::<u64>::empty(),
        state.anchor_id is None,
{
    SelectionState { selection: BTreeSet::new(), anchor_id: None }
}

/// The frames of the timeline that are not selected, as a set.
pub open spec fn inverted(ids: Seq<u64>, sel: Set<u64>) -> Set<u64> {
    ids.to_set().difference(sel)
}

/// Selects exactly the frames that were not selected. The anchor stays when
/// it is still selected, else it moves to the first newly selected frame;
/// it is cleared when nothing ends up selected.
pub fn invert_selection(
    ordered_ids: &[u64],
    current_selection: &BTreeSet<u64>,
    current_anchor_id: Option<u64>,
) -> (state: SelectionState)
    ensures
        state.selection@ == inverted(ordered_ids@, current_selection@),
        state.anchor_id == if inverted(ordered_ids@, current_selection@).is_empty() {
            None
        } else {
            match current_anchor_id {
                Some(a) if inverted(ordered_ids@, current_selection@).contains(a) => Some(a),
                _ => first_member(ordered_ids@, inverted(ordered_ids@, current_selection@)),
            }
        },
{
    let ghost ids = ordered_ids@;
    let ghost cur = current_selection@;
    let mut selection = BTreeSet::new();
    let mut first: Option<u64> = None;
    let mut i: usize = 0;
    while i < ordered_ids.len()
        invariant
            i <= ids.len(),
            ids == ordered_ids@,
            cur == current_selection@,
            selection@ == inverted(ids.take(i as int), cur),
            first == first_member(ids.take(i as int), inverted(ids, cur)),
        decreases ids.len() - i,
    {
        let id = ordered_ids[i];
        proof {
            let t = ids.take(i as int);
            assert(ids.take(i + 1) =~= t.push(id));
            t.lemma_push_to_set_commute(id);
            lemma_first_member_push(t, id, inverted(ids, cur));
        }
        if !current_selection.contains(&id) {
            selection.insert(id);
            if first.is_none() {
                first = Some(id);
            }
        }
        proof {
            assert(selection@ =~= inverted(ids.take(i + 1), cur));
        }
        i += 1;
    }
    assert(ids.take(ids.len() as int) =~= ids);
    let anchor_id = if selection.is_empty() {
        None
    } else {
        match current_anchor_id {
            Some(a) => {
                if selection.contains(&a) {
                    Some(a)
                } else {
                    first
                }
            },
            None => first,
        }
    };
    SelectionState { selection, anchor_id }
}

proof fn lemma_first_member_push(t: Seq<u64>, id: u64, s: Set<u64>)
    ensures
        first_member(t.push(id), s) == match first_member(t, s) {
            Some(x) => Some(x),
            None => if s.contains(id) {
                Some(id)
            } else {
                None
            },
        },
    decreases t.len(),
{
    if t.len() == 0 {
        assert(t.push(id).drop_first() =~= Seq::<u64>::empty());
    } else {
        assert(t.push(id).drop_first() =~= t.drop_first().push(id));
        lemma_first_member_push(t.drop_first(), id, s);
    }
}

fn add_range(sel: &mut BTreeSet<u64>, ids: &[u64], lo: usize, hi: usize)
    requires
        lo <= hi < ids@.len(),
    ensures
        final(sel)@ == old(sel)@.union(range_ids(ids@, lo as int, hi as int)),
{
    let ghost start = sel@;
    let mut k = lo;
    while k <= hi
        invariant
            lo <= k <= hi + 1,
            hi < ids@.len(),
            sel@ == start.union(range_ids(ids@, lo as int, k - 1)),
        decreases hi + 1 - k,
    {
        sel.insert(ids[k]);
        proof {
            assert forall|x: u64|
                start.union(range_ids(ids@, lo as int, k as int)).contains(x) implies sel@.contains(x) by {
                if range_ids(ids@, lo as int, k as int).contains(x) {
                    let w = choose|w: int| lo <= w <= k && 0 <= w < ids@.len() && ids@[w] == x;
                    if w < k {
                        assert(range_ids(ids@, lo as int, k - 1).contains(x));
                    }
                }
            }
            assert forall|x: u64|
                sel@.contains(x) implies start.union(range_ids(ids@, lo as int, k as int)).contains(x) by {
                if x == ids@[k as int] {
                    assert(range_ids(ids@, lo as int, k as int).contains(x));
                } else if range_ids(ids@, lo as int, k - 1).contains(x) {
                    let w = choose|w: int| lo <= w <= k - 1 && 0 <= w < ids@.len() && ids@[w] == x;
                    assert(range_ids(ids@, lo as int, k as int).contains(x));
                }
            }
            assert(sel@ =~= start.union(range_ids(ids@, lo as int, k as int)));
        }
        k += 1;
    }
}

/// Adds the frames between the anchor and `target_id` (both included) to
/// the selection and keeps the anchor. Without a usable anchor the target
/// alone is selected and becomes the anchor; an unknown target changes
/// nothing.
pub fn extend_selection_to(
    ordered_ids: &[u64],
    current_selection: &BTreeSet<u64>,
    current_anchor_id: Option<u64>,
    target_id: u64,
) -> (state: SelectionState)
    ensures
        state.pair() == extended_to(ordered_ids@, current_selection@, current_anchor_id, target_id),
{
    let target_index = match position_of(ordered_ids, target_id) {
        Some(t) => t,
        None => {
            return SelectionState {
                selection: copy_set(current_selection),
                anchor_id: current_anchor_id,
            };
        },
    };
    let (anchor_id, anchor_index) = match current_anchor_id {
        Some(a) => match position_of(ordered_ids, a) {
            Some(p) => (a, p),
            None => {
                return SelectionState { selection: singleton(target_id), anchor_id: Some(target_id) };
            },
        },
        None => {
            return SelectionState { selection: singleton(target_id), anchor_id: Some(target_id) };
        },
    };
    let (start, end) = if anchor_index <= target_index {
        (anchor_index, target_index)
    } else {
        (target_index, anchor_index)
    };
    let mut selection = copy_set(current_selection);
    add_range(&mut selection, ordered_ids, start, end);
    SelectionState { selection, anchor_id: Some(anchor_id) }
}

fn first_unselected_in_direction(
    ordered_ids: &[u64],
    current_selection: &BTreeSet<u64>,
    start_index: usize,
    forward: bool,
) -> (r: Option<usize>)
    requires
        start_index < ordered_ids@.len(),
    ensures
        r matches Some(j) ==> j < ordered_ids@.len() && step_found(ordered_ids@, current_selection@, start_index as int, forward) == Some(j as int),
        r is None ==> step_found(ordered_ids@, current_selection@, start_index as int, forward) is None,
{
    let n = ordered_ids.len();
    if forward {
        let mut index = start_index + 1;
        while index < ordered_ids.len()
            invariant
                start_index < index <= ordered_ids@.len(),
                forward,
                next_unselected(ordered_ids@, current_selection@, start_index + 1)
                    == next_unselected(ordered_ids@, current_selection@, index as int),
            decreases ordered_ids@.len() - index,
        {
            let candidate = ordered_ids[index];
            if !current_selection.contains(&candidate) {
                assert(next_unselected(ordered_ids@, current_selection@, index as int) == Some(index as int));
                return Some(index);
            }
            index += 1;
        }
        None
    } else {
        let mut index = start_index;
        while index > 0
            invariant
                index <= start_index < ordered_ids@.len(),
                !forward,
                prev_unselected(ordered_ids@, current_selection@, start_index - 1)
                    == prev_unselected(ordered_ids@, current_selection@, index - 1),
            decreases index,
        {
            let candidate = ordered_ids[index - 1];
            if !current_selection.contains(&candidate) {
                assert(prev_unselected(ordered_ids@, current_selection@, index - 1) == Some(index - 1));
                return Some(index - 1);
            }
            index -= 1;
        }
        None
    }
}

/// Extends the selection by one frame in the direction of `offset`: the
/// first unselected frame beyond the anchor (the anchor itself when there is
/// none) is added and becomes the anchor. A zero offset or an empty timeline
/// changes nothing.
pub fn extend_selection_by_step(
    ordered_ids: &[u64],
    current_selection: &BTreeSet<u64>,
    current_anchor_id: Option<u64>,
    offset: isize,
) -> (state: SelectionState)
    ensures
        state.pair() == extended_by_step(ordered_ids@, current_selection@, current_anchor_id, offset as int),
        ordered_ids@.len() > 0 && offset != 0 && !(current_anchor_id matches Some(a) && listed(ordered_ids@, a))
            ==> state.pair() == extended_by_step(
            ordered_ids@,
            current_selection@,
            Some(ordered_ids@[0]),
            offset as int,
        ),
        ordered_ids@.len() >= 2 && ordered_ids@[0] != ordered_ids@[1] && current_selection@.is_empty()
            && current_anchor_id is None && offset != 0 ==> state.pair() == if offset > 0 {
            (set![ordered_ids@[1]], Some(ordered_ids@[1]))
        } else {
            (set![ordered_ids@[0]], Some(ordered_ids@[0]))
        },
{
    proof {
        if ordered_ids@.len() > 0 && offset != 0 && !(current_anchor_id matches Some(a) && listed(
            ordered_ids@,
            a,
        )) {
            law_step_without_anchor_starts_at_first(ordered_ids@, current_selection@, current_anchor_id, offset as int);
        }
        if ordered_ids@.len() >= 2 && ordered_ids@[0] != ordered_ids@[1] && current_selection@.is_empty() && offset != 0 {
            assert(current_selection@ =~= Set::<u64>::empty());
            law_first_step_from_nothing(ordered_ids@, offset as int);
        }
    }
    if offset == 0 || ordered_ids.len() == 0 {
        return SelectionState { selection: copy_set(current_selection), anchor_id: current_anchor_id };
    }
    let anchor_id = match current_anchor_id {
        Some(a) => match position_of(ordered_ids, a) {
            Some(_) => a,
            None => ordered_ids[0],
        },
        None => ordered_ids[0],
    };
    let anchor_index = match position_of(ordered_ids, anchor_id) {
        Some(p) => p,
        None => {
            proof {
                assert(ordered_ids@[0] == ordered_ids@[0]);
            }
            return SelectionState { selection: copy_set(current_selection), anchor_id: current_anchor_id };
        },
    };
    let found = first_unselected_in_direction(ordered_ids, current_selection, anchor_index, offset > 0);
    let target = match found {
        Some(j) => ordered_ids[j],
        None => anchor_id,
    };
    let mut selection = copy_set(current_selection);
    selection.insert(target);
    SelectionState { selection, anchor_id: Some(target) }
}

/// Applies a click on `clicked_id`: a plain click selects only that frame,
/// Ctrl toggles it, and Shift (with or without Ctrl) extends the selection
/// from the anchor. A click on an unknown id changes nothing.
pub fn apply_selection(
    ordered_ids: &[u64],
    current_selection: &BTreeSet<u64>,
    current_anchor_id: Option<u64>,
    clicked_id: u64,
    mode: SelectionMode,
) -> (state: SelectionState)
    ensures
        state.pair() == clicked(ordered_ids@, current_selection@, current_anchor_id, clicked_id, mode),
{
    if position_of(ordered_ids, clicked_id).is_none() {
        return SelectionState { selection: copy_set(current_selection), anchor_id: current_anchor_id };
    }
    match mode {
        SelectionMode::Plain => SelectionState { selection: singleton(clicked_id), anchor_id: Some(clicked_id) },
        SelectionMode::Ctrl => {
            let mut selection = copy_set(current_selection);
            if !selection.insert(clicked_id) {
                selection.remove(&clicked_id);
            }
            SelectionState { selection, anchor_id: Some(clicked_id) }
        },
        SelectionMode::Shift | SelectionMode::CtrlShift => extend_selection_to(
            ordered_ids,
            current_selection,
            current_anchor_id,
            clicked_id,
        ),
    }
}

/// A Ctrl-click on a frame of the timeline, repeated, leaves the selection
/// as it was.
pub proof fn law_ctrl_click_twice_restores(ids: Seq<u64>, sel: Set<u64>, anchor: Option<u64>, id: u64)
    requires
        listed(ids, id),
    ensures
        clicked(ids, clicked(ids, sel, anchor, id, SelectionMode::Ctrl).0, Some(id), id, SelectionMode::Ctrl).0
            == sel,
        clicked(ids, sel, anchor, id, SelectionMode::Ctrl).1 == Some(id),
{
    let once = clicked(ids, sel, anchor, id, SelectionMode::Ctrl).0;
    if sel.contains(id) {
        assert(once.insert(id) =~= sel);
    } else {
        assert(once.remove(id) =~= sel);
    }
}

/// A Shift-click never drops frames from the selection, and the clicked
/// frame ends up selected.
pub proof fn law_shift_click_is_additive(ids: Seq<u64>, sel: Set<u64>, anchor: Option<u64>, id: u64)
    requires
        listed(ids, id),
    ensures
        sel.subset_of(clicked(ids, sel, anchor, id, SelectionMode::Shift).0) || clicked(
            ids,
            sel,
            anchor,
            id,
            SelectionMode::Shift,
        ).0 == set![id],
        clicked(ids, sel, anchor, id, SelectionMode::Shift).0.contains(id),
{
    ids.index_of_first_ensures(id);
    match anchor {
        Some(a) => {
            if listed(ids, a) {
                ids.index_of_first_ensures(a);
                let pt = pos(ids, id);
                let pa = pos(ids, a);
                let lo = if pa <= pt {
                    pa
                } else {
                    pt
                };
                let hi = if pa <= pt {
                    pt
                } else {
                    pa
                };
                assert(range_ids(ids, lo, hi).contains(id));
            }
        },
        None => {},
    }
}

/// Inverting twice gives back any selection made of frames of the
/// timeline.
pub proof fn law_invert_twice_restores(ids: Seq<u64>, sel: Set<u64>)
    requires
        sel.subset_of(ids.to_set()),
    ensures
        inverted(ids, inverted(ids, sel)) == sel,
{
    assert(inverted(ids, inverted(ids, sel)) =~= sel);
}

/// Inverting a full selection selects nothing.
pub proof fn law_invert_all_is_empty(ids: Seq<u64>)
    ensures
        inverted(ids, ids.to_set()).is_empty(),
{
    assert(inverted(ids, ids.to_set()) =~= Set::<u64>::empty());
}

/// A keyboard step selects a frame of the timeline and makes it the anchor,
/// keeping everything already selected.
pub proof fn law_step_selects_a_listed_frame(ids: Seq<u64>, sel: Set<u64>, anchor: Option<u64>, offset: int)
    requires
        offset != 0,
        ids.len() > 0,
    ensures
        ({
            let (s2, a2) = extended_by_step(ids, sel, anchor, offset);
            &&& sel.subset_of(s2)
            &&& a2 matches Some(t) && s2.contains(t) && listed(ids, t)
        }),
{
    let a = match anchor {
        Some(a) if listed(ids, a) => a,
        _ => ids[0],
    };
    assert(listed(ids, ids[0]));
    ids.index_of_first_ensures(a);
    let ai = pos(ids, a);
    if offset > 0 {
        lemma_next_unselected_in_range(ids, sel, ai + 1);
    } else {
        lemma_prev_unselected_in_range(ids, sel, ai - 1);
    }
    let t = step_target(ids, sel, ai, offset > 0);
    match step_found(ids, sel, ai, offset > 0) {
        Some(j) => assert(ids[j] == t),
        None => assert(ids[ai] == t),
    }
}

proof fn lemma_next_unselected_in_range(ids: Seq<u64>, sel: Set<u64>, j: int)
    ensures
        next_unselected(ids, sel, j) matches Some(k) ==> j <= k < ids.len() && 0 <= k,
    decreases ids.len() - j,
{
    if 0 <= j < ids.len() && sel.contains(ids[j]) {
        lemma_next_unselected_in_range(ids, sel, j + 1);
    }
}

proof fn lemma_prev_unselected_in_range(ids: Seq<u64>, sel: Set<u64>, j: int)
    ensures
        prev_unselected(ids, sel, j) matches Some(k) ==> 0 <= k <= j && k < ids.len(),
    decreases j + 1,
{
    if 0 <= j < ids.len() && sel.contains(ids[j]) {
        lemma_prev_unselected_in_range(ids, sel, j - 1);
    }
}

/// Without an anchor on the timeline, a keyboard step starts from the first
/// frame: it does exactly what the same step anchored at the first frame
/// does.
pub proof fn law_step_without_anchor_starts_at_first(ids: Seq<u64>, sel: Set<u64>, anchor: Option<u64>, offset: int)
    requires
        ids.len() > 0,
        offset != 0,
        !(anchor matches Some(a) && listed(ids, a)),
    ensures
        extended_by_step(ids, sel, anchor, offset) == extended_by_step(ids, sel, Some(ids[0]), offset),
{
    assert(listed(ids, ids[0]));
}

/// With nothing selected and no anchor, a step forward selects exactly the
/// second frame and a step back exactly the first (ids distinct).
pub proof fn law_first_step_from_nothing(ids: Seq<u64>, offset: int)
    requires
        ids.len() >= 2,
        ids[0] != ids[1],
        offset != 0,
    ensures
        extended_by_step(ids, Set::empty(), None, offset) == if offset > 0 {
            (set![ids[1]], Some(ids[1]))
        } else {
            (set![ids[0]], Some(ids[0]))
        },
{
    assert(listed(ids, ids[0]));
    ids.index_of_first_ensures(ids[0]);
    assert(pos(ids, ids[0]) == 0);
    let e = Set::<u64>::empty();
    if offset > 0 {
        assert(next_unselected(ids, e, 1) == Some(1int));
        assert(e.insert(ids[1]) =~= set![ids[1]]);
    } else {
        assert(step_found(ids, e, 0, false) is None);
        assert(e.insert(ids[0]) =~= set![ids[0]]);
    }
}

} // verus!
