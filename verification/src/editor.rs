//! The editor's state and what each user action does to it: the timeline,
//! the selection and its anchor, the clipboard, playback, loop and crop
//! settings, the export settings and the status line. Every action returns
//! the follow-up work (thumbnails, previews, dialogs, timers, exports) that
//! the window carries out.
use crate::coherence::{
    fresh_present, has_id, ids_preserved, lemma_appended_ids, lemma_click_stays_on_timeline, lemma_drop_keeps_ids,
    lemma_duplicated_ids_present, lemma_imported_ids, lemma_listed_has_id, lemma_map_first_ids,
    lemma_map_selected_ids, lemma_pasted_ids, lemma_same_parts_keep_ids,
};
use crate::paths::{filter_image_paths, image_paths};
use crate::render::{quarter_turns, quarter_turns_of};
use crate::runtime::Diagnostics;
use crate::selection::{
    apply_selection, clicked, copy_set, first_member, listed, set_from_ids, singleton, SelectionMode,
};
use crate::text::{ascii_lower, decimal, decimal_string, lowercase_ascii, push_str, text_of, trim_text, trimmed};
use crate::timeline::{
    chosen, count_selected_where, drop_position, duplicated, flipped, fresh_ids, frame_ids, imported_frames, kept,
    loop_ends_doubled, loop_source, map_first, map_selected, moved_down, moved_up, paste_position, quick_cropped, relabeled, repeated,
    max_frame_id, reverse_source, rotated_by, rounds, with_crop, with_duration, with_inspector, with_metadata, Timeline,
};
use crate::types::{EncoderPreset, ExportPreset, ExportProfile, FitMode, FrameItem, ResizeTarget, TransformSpec};
use crate::ui::{
    crop_rect_for_frame, following, following_frame_id, playback_start, playback_start_frame_id, quick_crop,
    step_frame_id, stepped,
    apply_export_size_preset, CropAnchor, CropPreset, DimensionPreset, ImportMode, InspectorValues, LoopMethod,
    LoopScope,
};
use std::collections::BTreeSet;
use vstd::prelude::*;

verus! {

broadcast use {vstd::std_specs::btree::group_btree_axioms, vstd::laws_cmp::group_laws_cmp};

/// Work that follows an action and needs the world outside the editor.
#[derive(Debug)]
pub enum EditorAction {
    /// Read the size of these frames and render their thumbnails.
    RefreshFrames(Vec<u64>),
    /// Read the size of every selected frame and render its thumbnail.
    RefreshSelection,
    /// Show the first selected frame in the preview.
    RefreshPreview,
    /// The export preview no longer matches the settings.
    InvalidateExportPreview,
    /// Ask whether these images are appended, prepended or replace the
    /// timeline.
    AskImportMode(Vec<String>),
    /// Advance playback of this generation after the delay.
    SchedulePlaybackAdvance { generation: u64, delay_ms: u64 },
    /// Encode the timeline into the output path.
    StartExport { output_path: String },
    /// Show the advanced controls.
    ShowAdvancedControls,
}

/// The editor: everything an action reads or changes.
#[derive(Debug)]
pub struct Editor {
    pub timeline: Timeline,
    pub selection: BTreeSet<u64>,
    pub anchor_id: Option<u64>,
    pub clipboard: Vec<FrameItem>,
    pub status: String,
    pub playback_active: bool,
    pub playback_generation: u64,
    pub loop_method: LoopMethod,
    pub loop_repeats: u32,
    pub loop_scope: LoopScope,
    pub crop_preset: CropPreset,
    pub crop_anchor: CropAnchor,
    pub export_profile: ExportProfile,
    pub last_output_path: Option<String>,
    pub export_in_progress: bool,
}

/// `prefix`, the decimal number `n`, then `suffix`.
pub open spec fn counted(prefix: Seq<char>, n: nat, suffix: Seq<char>) -> Seq<char> {
    prefix + decimal(n) + suffix
}

/// The generation after stopping playback: a new one when playback ran.
pub open spec fn stopped_generation(active: bool, generation: u64) -> u64 {
    if active {
        if generation == u64::MAX {
            0
        } else {
            (generation + 1) as u64
        }
    } else {
        generation
    }
}

/// The actions after frames were added: refresh them, then the preview.
pub open spec fn refresh_added(ids: Seq<u64>, acts: Seq<EditorAction>) -> bool {
    &&& acts.len() == 2
    &&& acts[0] matches EditorAction::RefreshFrames(v) && v@ == ids
    &&& acts[1] is RefreshPreview
}

/// The first of `ids`, if any.
pub open spec fn first_of(ids: Seq<u64>) -> Option<u64> {
    if ids.len() > 0 {
        Some(ids[0])
    } else {
        None
    }
}

impl Editor {
    /// Loop, crop and export settings are the same in `a` and `b`.
    pub open spec fn settings_kept(a: Editor, b: Editor) -> bool {
        &&& a.loop_method == b.loop_method
        &&& a.loop_repeats == b.loop_repeats
        &&& a.loop_scope == b.loop_scope
        &&& a.crop_preset == b.crop_preset
        &&& a.crop_anchor == b.crop_anchor
        &&& a.export_profile == b.export_profile
        &&& a.last_output_path == b.last_output_path
        &&& a.export_in_progress == b.export_in_progress
    }

    /// The timeline, selection, anchor and clipboard are the same in `a` and
    /// `b`.
    pub open spec fn edits_kept(a: Editor, b: Editor) -> bool {
        &&& a.timeline@ == b.timeline@
        &&& a.timeline.next_id() == b.timeline.next_id()
        &&& a.selection@ == b.selection@
        &&& a.anchor_id == b.anchor_id
        &&& a.clipboard@ == b.clipboard@
    }

    /// Playback is the same in `a` and `b`.
    pub open spec fn playback_kept(a: Editor, b: Editor) -> bool {
        &&& a.playback_active == b.playback_active
        &&& a.playback_generation == b.playback_generation
    }

    /// Playback in `b` is `a`'s, stopped.
    pub open spec fn playback_stopped(a: Editor, b: Editor) -> bool {
        &&& !b.playback_active
        &&& b.playback_generation == stopped_generation(a.playback_active, a.playback_generation)
    }

    /// The selection and its anchor name only frames of the timeline, and
    /// every frame's id is below the id the next new frame receives.
    pub open spec fn coherent(self) -> bool {
        &&& self.timeline.wf()
        &&& forall|x: u64| #[trigger] self.selection@.contains(x) ==> has_id(self.timeline@, x)
        &&& (self.anchor_id matches Some(a) ==> has_id(self.timeline@, a))
    }

    /// The ids of the timeline's frames, in order.
    pub open spec fn ids(self) -> Seq<u64> {
        frame_ids(self.timeline@)
    }

    /// An empty editor with the given export settings and output path.
    pub fn new(export_profile: ExportProfile, last_output_path: Option<String>) -> (e: Self)
        ensures
            e.timeline@.len() == 0,
            e.timeline.next_id() == 1,
            e.timeline.wf(),
            e.coherent(),
            e.selection@.is_empty(),
            e.anchor_id is None,
            e.clipboard@.len() == 0,
            e.status@.len() == 0,
            !e.playback_active,
            e.playback_generation == 0,
            e.loop_method == LoopMethod::PingPong,
            e.loop_repeats == 1,
            e.loop_scope == LoopScope::Selected,
            e.crop_preset == CropPreset::Square,
            e.crop_anchor == CropAnchor::Center,
            e.export_profile == export_profile,
            e.last_output_path == last_output_path,
            !e.export_in_progress,
    {
        Editor {
            timeline: Timeline::new(),
            selection: BTreeSet::new(),
            anchor_id: None,
            clipboard: Vec::new(),
            status: String::new(),
            playback_active: false,
            playback_generation: 0,
            loop_method: LoopMethod::PingPong,
            loop_repeats: 1,
            loop_scope: LoopScope::Selected,
            crop_preset: CropPreset::Square,
            crop_anchor: CropAnchor::Center,
            export_profile,
            last_output_path,
            export_in_progress: false,
        }
    }

    /// Stops playback, starting a new generation when it ran, so that
    /// pending advances are ignored.
    pub fn stop_playback(&mut self)
        ensures
            Self::playback_stopped(*old(self), *final(self)),
            Self::settings_kept(*old(self), *final(self)),
            Self::edits_kept(*old(self), *final(self)),
            final(self).status == old(self).status,
            old(self).coherent() ==> final(self).coherent(),
    {
        if self.playback_active {
            self.playback_active = false;
            self.playback_generation = self.playback_generation.wrapping_add(1);
        }
    }
}

/// `prefix`, `n` in decimal, then `suffix`.
pub(crate) fn counted_text(prefix: &str, n: u64, suffix: &str) -> (s: String)
    ensures
        s@ == counted(prefix@, n as nat, suffix@),
{
    let mut s = text_of(prefix);
    let digits = decimal_string(n);
    push_str(&mut s, digits.as_str());
    push_str(&mut s, suffix);
    s
}

fn first_id(ids: &Vec<u64>) -> (r: Option<u64>)
    ensures
        r == first_of(ids@),
{
    if ids.len() > 0 {
        Some(ids[0])
    } else {
        None
    }
}

fn refresh_actions(ids: Vec<u64>) -> (acts: Vec<EditorAction>)
    ensures
        refresh_added(ids@, acts@),
{
    let mut acts: Vec<EditorAction> = Vec::new();
    acts.push(EditorAction::RefreshFrames(ids));
    acts.push(EditorAction::RefreshPreview);
    acts
}

impl Editor {
    /// Makes `ids` the selection, anchored at the first of them.
    fn select_ids(&mut self, ids: &Vec<u64>)
        ensures
            final(self).selection@ == ids@.to_set(),
            final(self).anchor_id == first_of(ids@),
            Self::settings_kept(*old(self), *final(self)),
            Self::playback_kept(*old(self), *final(self)),
            final(self).timeline@ == old(self).timeline@,
            final(self).timeline.next_id() == old(self).timeline.next_id(),
            final(self).clipboard@ == old(self).clipboard@,
            final(self).status == old(self).status,
    {
        self.selection = set_from_ids(ids.as_slice());
        self.anchor_id = first_id(ids);
    }

    /// Imports images with the chosen placement: they become the selection
    /// and get thumbnails, and the first of them is previewed.
    pub fn import_with_mode(&mut self, paths: Vec<String>, mode: ImportMode) -> (acts: Vec<EditorAction>)
        requires
            match mode {
                ImportMode::Replace => 1 + paths@.len() <= u64::MAX,
                _ => old(self).timeline.next_id() + paths@.len() <= u64::MAX,
            },
        ensures
            ({
                let first = match mode {
                    ImportMode::Replace => 1,
                    _ => old(self).timeline.next_id(),
                };
                let added = imported_frames(paths@, first);
                let ids = fresh_ids(first, paths@.len());
                &&& final(self).timeline@ == match mode {
                    ImportMode::Append => old(self).timeline@ + added,
                    ImportMode::Prepend => added + old(self).timeline@,
                    ImportMode::Replace => added,
                }
                &&& final(self).timeline.next_id() == first + paths@.len()
                &&& final(self).selection@ == ids.to_set()
                &&& final(self).anchor_id == first_of(ids)
                &&& final(self).status@ == counted(
                    "Imported "@,
                    paths@.len(),
                    " frame(s). Generating thumbnails..."@,
                )
                &&& refresh_added(ids, acts@)
            }),
            Self::playback_stopped(*old(self), *final(self)),
            Self::settings_kept(*old(self), *final(self)),
            final(self).clipboard@ == old(self).clipboard@,
            old(self).timeline.wf() ==> final(self).timeline.wf(),
            old(self).coherent() ==> final(self).coherent(),
    {
        self.stop_playback();
        let n = paths.len();
        let ghost before = self.timeline@;
        let ghost given = paths@;
        let ghost first = match mode {
            ImportMode::Replace => 1,
            _ => self.timeline.next_id(),
        };
        let ids = match mode {
            ImportMode::Append => self.timeline.import_paths(paths),
            ImportMode::Prepend => self.timeline.prepend_paths(paths),
            ImportMode::Replace => self.timeline.replace_paths(paths),
        };
        self.select_ids(&ids);
        self.status = counted_text("Imported ", n as u64, " frame(s). Generating thumbnails...");
        proof {
            if old(self).coherent() {
                lemma_imported_ids(before, given, first);
                lemma_fresh_coherent(*self, first, given.len());
            }
        }
        refresh_actions(ids)
    }

    /// Images handed to the editor: those that are not images are dropped;
    /// into an empty timeline they are appended, otherwise the user is asked
    /// where they go.
    pub fn import_paths(&mut self, paths: Vec<String>) -> (acts: Vec<EditorAction>)
        requires
            old(self).timeline.next_id() + paths@.len() <= u64::MAX,
        ensures
            ({
                let valid = image_paths(paths@);
                let first = old(self).timeline.next_id();
                let ids = fresh_ids(first, valid.len());
                if valid.len() == 0 {
                    &&& final(self).status@ == "No supported image files were provided."@
                    &&& acts@.len() == 0
                    &&& Self::edits_kept(*old(self), *final(self))
                    &&& Self::playback_kept(*old(self), *final(self))
                } else if old(self).timeline@.len() == 0 {
                    &&& final(self).timeline@ == old(self).timeline@ + imported_frames(valid, first)
                    &&& final(self).timeline.next_id() == first + valid.len()
                    &&& final(self).selection@ == ids.to_set()
                    &&& final(self).anchor_id == first_of(ids)
                    &&& final(self).clipboard@ == old(self).clipboard@
                    &&& final(self).status@ == counted(
                        "Imported "@,
                        valid.len(),
                        " frame(s). Generating thumbnails..."@,
                    )
                    &&& refresh_added(ids, acts@)
                    &&& Self::playback_stopped(*old(self), *final(self))
                } else {
                    &&& acts@.len() == 1
                    &&& acts@[0] matches EditorAction::AskImportMode(v) && v@ == valid
                    &&& Self::edits_kept(*old(self), *final(self))
                    &&& Self::playback_kept(*old(self), *final(self))
                    &&& final(self).status == old(self).status
                }
            }),
            Self::settings_kept(*old(self), *final(self)),
            old(self).timeline.wf() ==> final(self).timeline.wf(),
            old(self).coherent() ==> final(self).coherent(),
    {
        let ghost all = paths@;
        let valid = filter_image_paths(paths);
        proof {
            crate::paths::lemma_image_paths_len(all);
        }
        if valid.len() == 0 {
            self.status = text_of("No supported image files were provided.");
            return Vec::new();
        }
        if self.timeline.is_empty() {
            return self.import_with_mode(valid, ImportMode::Append);
        }
        let mut acts: Vec<EditorAction> = Vec::new();
        acts.push(EditorAction::AskImportMode(valid));
        acts
    }

    /// A click on a frame with the given modifiers; the preview follows the
    /// selection.
    pub fn select_frame(&mut self, id: u64, mode: SelectionMode) -> (acts: Vec<EditorAction>)
        ensures
            (final(self).selection@, final(self).anchor_id) == clicked(
                old(self).ids(),
                old(self).selection@,
                old(self).anchor_id,
                id,
                mode,
            ),
            acts@.len() == 1 && acts@[0] is RefreshPreview,
            final(self).timeline@ == old(self).timeline@,
            final(self).timeline.next_id() == old(self).timeline.next_id(),
            final(self).clipboard@ == old(self).clipboard@,
            final(self).status == old(self).status,
            Self::settings_kept(*old(self), *final(self)),
            Self::playback_kept(*old(self), *final(self)),
            old(self).coherent() ==> final(self).coherent(),
    {
        let ids = self.timeline.frame_id_list();
        let next = apply_selection(ids.as_slice(), &self.selection, self.anchor_id, id, mode);
        self.selection = next.selection;
        self.anchor_id = next.anchor_id;
        let mut acts: Vec<EditorAction> = Vec::new();
        acts.push(EditorAction::RefreshPreview);
        acts
    }
}

impl Editor {
    /// Turns one frame on or off for export.
    pub fn set_frame_enabled(&mut self, id: u64, enabled: bool)
        ensures
            final(self).timeline@ == map_first(old(self).timeline@, id, |f: FrameItem| FrameItem { enabled, ..f }),
            final(self).timeline.next_id() == old(self).timeline.next_id(),
            old(self).timeline.wf() ==> final(self).timeline.wf(),
            final(self).selection@ == old(self).selection@,
            final(self).anchor_id == old(self).anchor_id,
            final(self).clipboard@ == old(self).clipboard@,
            final(self).status == old(self).status,
            Self::settings_kept(*old(self), *final(self)),
            Self::playback_kept(*old(self), *final(self)),
            old(self).coherent() ==> final(self).coherent(),
    {
        self.timeline.set_frame_enabled(id, enabled);
        proof {
            if old(self).coherent() {
                lemma_map_first_ids(old(self).timeline@, id, |f: FrameItem| FrameItem { enabled, ..f });
                lemma_still_coherent(*old(self), *self);
            }
        }
    }

    /// Sets one frame's duration, at least 10 ms.
    pub fn set_frame_duration(&mut self, id: u64, duration_ms: u32)
        ensures
            final(self).timeline@ == map_first(
                old(self).timeline@,
                id,
                |f: FrameItem| FrameItem { duration_ms: at_least_ten(duration_ms), ..f },
            ),
            final(self).timeline.next_id() == old(self).timeline.next_id(),
            old(self).timeline.wf() ==> final(self).timeline.wf(),
            final(self).selection@ == old(self).selection@,
            final(self).anchor_id == old(self).anchor_id,
            final(self).clipboard@ == old(self).clipboard@,
            final(self).status == old(self).status,
            Self::settings_kept(*old(self), *final(self)),
            Self::playback_kept(*old(self), *final(self)),
            old(self).coherent() ==> final(self).coherent(),
    {
        self.timeline.set_frame_duration(id, duration_ms);
        proof {
            if old(self).coherent() {
                lemma_map_first_ids(
                    old(self).timeline@,
                    id,
                    |f: FrameItem| FrameItem { duration_ms: at_least_ten(duration_ms), ..f },
                );
                lemma_still_coherent(*old(self), *self);
            }
        }
    }

    /// Sets the duration of every selected frame, at least 10 ms.
    pub fn apply_batch_duration(&mut self, duration_ms: u32)
        ensures
            final(self).timeline@ == with_duration(
                old(self).timeline@,
                old(self).selection@,
                at_least_ten(duration_ms),
            ),
            final(self).timeline.next_id() == old(self).timeline.next_id(),
            old(self).timeline.wf() ==> final(self).timeline.wf(),
            final(self).status@ == counted(
                "Applied "@,
                at_least_ten(duration_ms) as nat,
                " ms to selected frames."@,
            ),
            final(self).selection@ == old(self).selection@,
            final(self).anchor_id == old(self).anchor_id,
            final(self).clipboard@ == old(self).clipboard@,
            Self::settings_kept(*old(self), *final(self)),
            Self::playback_kept(*old(self), *final(self)),
            old(self).coherent() ==> final(self).coherent(),
    {
        let d: u32 = if duration_ms > 10 {
            duration_ms
        } else {
            10
        };
        self.timeline.apply_duration(&self.selection, d);
        self.status = counted_text("Applied ", d as u64, " ms to selected frames.");
        proof {
            if old(self).coherent() {
                lemma_with_duration_ids(old(self).timeline@, old(self).selection@, d);
                lemma_still_coherent(*old(self), *self);
            }
        }
    }

    /// Moves the selection one step toward the start.
    pub fn move_selection_up(&mut self)
        ensures
            final(self).timeline@ == moved_up(old(self).timeline@, old(self).selection@),
            final(self).timeline.next_id() == old(self).timeline.next_id(),
            old(self).timeline.wf() ==> final(self).timeline.wf(),
            final(self).selection@ == old(self).selection@,
            final(self).anchor_id == old(self).anchor_id,
            final(self).clipboard@ == old(self).clipboard@,
            final(self).status == old(self).status,
            Self::settings_kept(*old(self), *final(self)),
            Self::playback_stopped(*old(self), *final(self)),
            old(self).coherent() ==> final(self).coherent(),
    {
        self.stop_playback();
        self.timeline.move_selection_up(&self.selection);
        proof {
            if old(self).coherent() {
                crate::timeline_laws::law_move_up_keeps_both_orders(old(self).timeline@, old(self).selection@);
                lemma_same_parts_keep_ids(old(self).timeline@, self.timeline@, old(self).selection@);
                lemma_still_coherent(*old(self), *self);
            }
        }
    }

    /// Moves the selection one step toward the end.
    pub fn move_selection_down(&mut self)
        ensures
            final(self).timeline@ == moved_down(old(self).timeline@, old(self).selection@),
            final(self).timeline.next_id() == old(self).timeline.next_id(),
            old(self).timeline.wf() ==> final(self).timeline.wf(),
            final(self).selection@ == old(self).selection@,
            final(self).anchor_id == old(self).anchor_id,
            final(self).clipboard@ == old(self).clipboard@,
            final(self).status == old(self).status,
            Self::settings_kept(*old(self), *final(self)),
            Self::playback_stopped(*old(self), *final(self)),
            old(self).coherent() ==> final(self).coherent(),
    {
        self.stop_playback();
        self.timeline.move_selection_down(&self.selection);
        proof {
            if old(self).coherent() {
                crate::timeline_laws::law_move_down_keeps_both_orders(old(self).timeline@, old(self).selection@);
                lemma_same_parts_keep_ids(old(self).timeline@, self.timeline@, old(self).selection@);
                lemma_still_coherent(*old(self), *self);
            }
        }
    }

    /// A frame dragged onto position `target_index`; the status reports a
    /// reorder when the frame moved.
    pub fn drop_frame_at(&mut self, dragged_id: u64, target_index: usize)
        ensures
            ({
                let s = old(self).timeline@;
                let moved = match frame_ids(s).index_of_first(dragged_id) {
                    Some(c) => {
                        let cl = if target_index < s.len() {
                            target_index as int
                        } else {
                            s.len() as int
                        };
                        c != cl && c + 1 != cl
                    },
                    None => false,
                };
                if moved {
                    let c = frame_ids(s).index_of_first(dragged_id).unwrap();
                    &&& final(self).timeline@ == s.remove(c).insert(
                        drop_position(c, target_index as int, s.len() as int),
                        s[c],
                    )
                    &&& final(self).status@ == "Reordered frame."@
                } else {
                    &&& final(self).timeline@ == s
                    &&& final(self).status == old(self).status
                }
            }),
            final(self).timeline.next_id() == old(self).timeline.next_id(),
            old(self).timeline.wf() ==> final(self).timeline.wf(),
            final(self).selection@ == old(self).selection@,
            final(self).anchor_id == old(self).anchor_id,
            final(self).clipboard@ == old(self).clipboard@,
            Self::settings_kept(*old(self), *final(self)),
            Self::playback_stopped(*old(self), *final(self)),
            old(self).coherent() ==> final(self).coherent(),
    {
        self.stop_playback();
        proof {
            frame_ids(self.timeline@).index_of_first_ensures(dragged_id);
        }
        if self.timeline.move_frame_to_index(dragged_id, target_index) {
            self.status = text_of("Reordered frame.");
            proof {
                if old(self).coherent() {
                    let s = old(self).timeline@;
                    let c = frame_ids(s).index_of_first(dragged_id).unwrap();
                    lemma_drop_keeps_ids(s, c, drop_position(c, target_index as int, s.len() as int));
                    lemma_still_coherent(*old(self), *self);
                }
            }
        }
    }

    /// Duplicates the selected frames; the copies become the selection.
    pub fn duplicate_selection(&mut self) -> (acts: Vec<EditorAction>)
        requires
            old(self).timeline.next_id() + chosen(old(self).timeline@, old(self).selection@).len() <= u64::MAX,
        ensures
            ({
                let n = chosen(old(self).timeline@, old(self).selection@).len();
                let ids = fresh_ids(old(self).timeline.next_id(), n);
                &&& final(self).timeline@ == duplicated(
                    old(self).timeline@,
                    old(self).selection@,
                    old(self).timeline.next_id(),
                )
                &&& final(self).timeline.next_id() == old(self).timeline.next_id() + n
                &&& final(self).selection@ == ids.to_set()
                &&& final(self).anchor_id == first_of(ids)
                &&& final(self).status@ == counted("Duplicated "@, n, " frame(s)."@)
                &&& refresh_added(ids, acts@)
            }),
            old(self).timeline.wf() ==> final(self).timeline.wf(),
            final(self).clipboard@ == old(self).clipboard@,
            Self::settings_kept(*old(self), *final(self)),
            Self::playback_stopped(*old(self), *final(self)),
            old(self).coherent() ==> final(self).coherent(),
    {
        self.stop_playback();
        let inserted = self.timeline.duplicate_selected(&self.selection);
        self.select_ids(&inserted);
        self.status = counted_text("Duplicated ", inserted.len() as u64, " frame(s).");
        proof {
            if old(self).coherent() {
                let n = chosen(old(self).timeline@, old(self).selection@).len();
                lemma_duplicated_ids_present(old(self).timeline@, old(self).selection@, old(self).timeline.next_id());
                lemma_fresh_coherent(*self, old(self).timeline.next_id(), n);
            }
        }
        refresh_actions(inserted)
    }

    /// Copies the selected frames, in timeline order.
    pub fn copy_selection(&mut self)
        ensures
            final(self).clipboard@ == chosen(old(self).timeline@, old(self).selection@),
            final(self).status@ == counted(
                "Copied "@,
                chosen(old(self).timeline@, old(self).selection@).len(),
                " frame(s)."@,
            ),
            final(self).timeline@ == old(self).timeline@,
            final(self).timeline.next_id() == old(self).timeline.next_id(),
            final(self).selection@ == old(self).selection@,
            final(self).anchor_id == old(self).anchor_id,
            Self::settings_kept(*old(self), *final(self)),
            Self::playback_kept(*old(self), *final(self)),
            old(self).coherent() ==> final(self).coherent(),
    {
        self.clipboard = self.timeline.selected_frames(&self.selection);
        self.status = counted_text("Copied ", self.clipboard.len() as u64, " frame(s).");
    }

    /// Pastes copies of the clipboard after the selection (at the end when
    /// nothing is selected); the copies become the selection.
    pub fn paste_clipboard(&mut self) -> (acts: Vec<EditorAction>)
        requires
            old(self).timeline.next_id() + old(self).clipboard@.len() <= u64::MAX,
        ensures
            ({
                let s = old(self).timeline@;
                let a = paste_position(old(self).selection@, s);
                let n = old(self).clipboard@.len();
                let ids = fresh_ids(old(self).timeline.next_id(), n);
                &&& final(self).timeline@ == s.take(a) + relabeled(
                    old(self).clipboard@,
                    old(self).timeline.next_id(),
                ) + s.skip(a)
                &&& final(self).timeline.next_id() == old(self).timeline.next_id() + n
                &&& final(self).selection@ == ids.to_set()
                &&& final(self).anchor_id == first_of(ids)
                &&& final(self).status@ == counted("Pasted "@, n, " frame(s)."@)
                &&& refresh_added(ids, acts@)
            }),
            old(self).timeline.wf() ==> final(self).timeline.wf(),
            final(self).clipboard@ == old(self).clipboard@,
            Self::settings_kept(*old(self), *final(self)),
            Self::playback_stopped(*old(self), *final(self)),
            old(self).coherent() ==> final(self).coherent(),
    {
        self.stop_playback();
        let inserted = self.timeline.paste_after_selection(&self.selection, self.clipboard.as_slice());
        self.select_ids(&inserted);
        self.status = counted_text("Pasted ", inserted.len() as u64, " frame(s).");
        proof {
            if old(self).coherent() {
                let s = old(self).timeline@;
                crate::timeline::lemma_last_selected_in_range(old(self).selection@, s);
                lemma_pasted_ids(
                    s,
                    paste_position(old(self).selection@, s),
                    old(self).clipboard@,
                    old(self).timeline.next_id(),
                );
                lemma_fresh_coherent(*self, old(self).timeline.next_id(), old(self).clipboard@.len());
            }
        }
        refresh_actions(inserted)
    }

    /// Removes the selected frames and clears the selection; the status
    /// counts the ids that were selected.
    pub fn remove_selection(&mut self) -> (acts: Vec<EditorAction>)
        ensures
            final(self).timeline@ == kept(old(self).timeline@, old(self).selection@),
            final(self).timeline.next_id() == old(self).timeline.next_id(),
            old(self).timeline.wf() ==> final(self).timeline.wf(),
            final(self).selection@.is_empty(),
            final(self).anchor_id is None,
            final(self).status@ == counted("Removed "@, old(self).selection@.len(), " frame(s)."@),
            acts@.len() == 1 && acts@[0] is InvalidateExportPreview,
            final(self).clipboard@ == old(self).clipboard@,
            Self::settings_kept(*old(self), *final(self)),
            Self::playback_stopped(*old(self), *final(self)),
            old(self).coherent() ==> final(self).coherent(),
    {
        self.stop_playback();
        let removed = self.selection.len();
        self.timeline.remove_selected(&self.selection);
        self.selection = BTreeSet::new();
        self.anchor_id = None;
        self.status = counted_text("Removed ", removed as u64, " frame(s).");
        let mut acts: Vec<EditorAction> = Vec::new();
        acts.push(EditorAction::InvalidateExportPreview);
        acts
    }

    /// Appends a copy of the selection (of every frame when nothing is
    /// selected); the copies become the selection.
    pub fn append_duplicate_loop(&mut self) -> (acts: Vec<EditorAction>)
        requires
            old(self).timeline.next_id() + loop_source(old(self).timeline@, old(self).selection@).len()
                <= u64::MAX,
        ensures
            ({
                let src = loop_source(old(self).timeline@, old(self).selection@);
                let ids = fresh_ids(old(self).timeline.next_id(), src.len());
                &&& final(self).timeline@ == old(self).timeline@ + relabeled(src, old(self).timeline.next_id())
                &&& final(self).timeline.next_id() == old(self).timeline.next_id() + src.len()
                &&& final(self).selection@ == ids.to_set()
                &&& final(self).anchor_id == first_of(ids)
                &&& final(self).status@ == counted(
                    "Appended duplicate loop with "@,
                    src.len(),
                    " frame(s)."@,
                )
                &&& refresh_added(ids, acts@)
            }),
            old(self).timeline.wf() ==> final(self).timeline.wf(),
            final(self).clipboard@ == old(self).clipboard@,
            Self::settings_kept(*old(self), *final(self)),
            Self::playback_stopped(*old(self), *final(self)),
            old(self).coherent() ==> final(self).coherent(),
    {
        self.stop_playback();
        let inserted = self.timeline.append_duplicate_loop(&self.selection);
        self.select_ids(&inserted);
        proof {
            if old(self).coherent() {
                let src = loop_source(old(self).timeline@, old(self).selection@);
                lemma_appended_ids(old(self).timeline@, src, old(self).timeline.next_id());
                lemma_fresh_coherent(*self, old(self).timeline.next_id(), src.len());
            }
        }
        self.status = counted_text("Appended duplicate loop with ", inserted.len() as u64, " frame(s).");
        refresh_actions(inserted)
    }

    /// Appends the selection (every frame when nothing is selected) played
    /// backwards; the copies become the selection.
    pub fn append_reverse_loop(&mut self, repeat_edges: bool) -> (acts: Vec<EditorAction>)
        requires
            old(self).timeline.next_id() + reverse_source(
                old(self).timeline@,
                old(self).selection@,
                repeat_edges,
            ).len() <= u64::MAX,
        ensures
            ({
                let src = reverse_source(old(self).timeline@, old(self).selection@, repeat_edges);
                let ids = fresh_ids(old(self).timeline.next_id(), src.len());
                &&& final(self).timeline@ == old(self).timeline@ + relabeled(src, old(self).timeline.next_id())
                &&& final(self).timeline.next_id() == old(self).timeline.next_id() + src.len()
                &&& final(self).selection@ == ids.to_set()
                &&& final(self).anchor_id == first_of(ids)
                &&& final(self).status@ == counted(
                    "Appended reverse loop with "@,
                    src.len(),
                    " frame(s)."@,
                )
                &&& refresh_added(ids, acts@)
            }),
            old(self).timeline.wf() ==> final(self).timeline.wf(),
            final(self).clipboard@ == old(self).clipboard@,
            Self::settings_kept(*old(self), *final(self)),
            Self::playback_stopped(*old(self), *final(self)),
            old(self).coherent() ==> final(self).coherent(),
    {
        self.stop_playback();
        let inserted = self.timeline.append_reverse_loop(&self.selection, repeat_edges);
        self.select_ids(&inserted);
        proof {
            if old(self).coherent() {
                let src = reverse_source(old(self).timeline@, old(self).selection@, repeat_edges);
                lemma_appended_ids(old(self).timeline@, src, old(self).timeline.next_id());
                lemma_fresh_coherent(*self, old(self).timeline.next_id(), src.len());
            }
        }
        self.status = counted_text("Appended reverse loop with ", inserted.len() as u64, " frame(s).");
        refresh_actions(inserted)
    }
}

/// A duration of at least 10 ms.
pub open spec fn at_least_ten(d: u32) -> u32 {
    if d > 10 {
        d
    } else {
        10
    }
}

/// The selection a loop is built from: the selection for a selected
/// range, nothing (meaning every frame) for all frames.
pub open spec fn loop_selection_of(sel: Set<u64>, scope: LoopScope) -> Set<u64> {
    match scope {
        LoopScope::Selected => sel,
        LoopScope::AllFrames => Set::empty(),
    }
}

/// The frames one round of a loop adds; none when a selected range is
/// asked for and nothing is selected.
pub open spec fn loop_frames(s: Seq<FrameItem>, sel: Set<u64>, scope: LoopScope, method: LoopMethod) -> Seq<
    FrameItem,
> {
    if scope == LoopScope::Selected && sel.is_empty() {
        Seq::empty()
    } else {
        let l = loop_selection_of(sel, scope);
        match method {
            LoopMethod::Duplicate => loop_source(s, l),
            LoopMethod::Reverse => reverse_source(s, l, true),
            LoopMethod::PingPong => reverse_source(s, l, false),
        }
    }
}

/// The existing frames once a loop is created: a ping-pong loop over more
/// than one frame doubles the durations of the first and the last frame of
/// its source, so that the turnaround at either end lasts as long as the
/// two passes through it; other loops leave them as they are.
pub open spec fn turned(s: Seq<FrameItem>, sel: Set<u64>, scope: LoopScope, method: LoopMethod) -> Seq<FrameItem> {
    let l = loop_selection_of(sel, scope);
    if method == LoopMethod::PingPong && loop_source(s, l).len() > 1 {
        loop_ends_doubled(s, l)
    } else {
        s
    }
}

/// The actions after the selected frames changed: refresh them, then the
/// preview.
pub open spec fn refresh_selected(acts: Seq<EditorAction>) -> bool {
    &&& acts.len() == 2
    &&& acts[0] is RefreshSelection
    &&& acts[1] is RefreshPreview
}

fn refresh_selection_actions() -> (acts: Vec<EditorAction>)
    ensures
        refresh_selected(acts@),
{
    let mut acts: Vec<EditorAction> = Vec::new();
    acts.push(EditorAction::RefreshSelection);
    acts.push(EditorAction::RefreshPreview);
    acts
}

impl Editor {
    pub fn set_loop_method(&mut self, method: LoopMethod)
        ensures
            final(self).loop_method == method,
            final(self).loop_repeats == old(self).loop_repeats,
            final(self).loop_scope == old(self).loop_scope,
            final(self).crop_preset == old(self).crop_preset,
            final(self).crop_anchor == old(self).crop_anchor,
            final(self).export_profile == old(self).export_profile,
            final(self).last_output_path == old(self).last_output_path,
            final(self).export_in_progress == old(self).export_in_progress,
            Self::edits_kept(*old(self), *final(self)),
            Self::playback_kept(*old(self), *final(self)),
            final(self).status == old(self).status,
            old(self).coherent() ==> final(self).coherent(),
    {
        self.loop_method = method;
    }

    /// Sets how many rounds a loop adds, at least one.
    pub fn set_loop_repeats(&mut self, repeats: u32)
        ensures
            final(self).loop_repeats == if repeats > 1 {
                repeats
            } else {
                1
            },
            final(self).loop_method == old(self).loop_method,
            final(self).loop_scope == old(self).loop_scope,
            final(self).crop_preset == old(self).crop_preset,
            final(self).crop_anchor == old(self).crop_anchor,
            final(self).export_profile == old(self).export_profile,
            final(self).last_output_path == old(self).last_output_path,
            final(self).export_in_progress == old(self).export_in_progress,
            Self::edits_kept(*old(self), *final(self)),
            Self::playback_kept(*old(self), *final(self)),
            final(self).status == old(self).status,
            old(self).coherent() ==> final(self).coherent(),
    {
        self.loop_repeats = if repeats > 1 {
            repeats
        } else {
            1
        };
    }

    pub fn set_loop_scope(&mut self, scope: LoopScope)
        ensures
            final(self).loop_scope == scope,
            final(self).loop_method == old(self).loop_method,
            final(self).loop_repeats == old(self).loop_repeats,
            final(self).crop_preset == old(self).crop_preset,
            final(self).crop_anchor == old(self).crop_anchor,
            final(self).export_profile == old(self).export_profile,
            final(self).last_output_path == old(self).last_output_path,
            final(self).export_in_progress == old(self).export_in_progress,
            Self::edits_kept(*old(self), *final(self)),
            Self::playback_kept(*old(self), *final(self)),
            final(self).status == old(self).status,
            old(self).coherent() ==> final(self).coherent(),
    {
        self.loop_scope = scope;
    }

    /// The frames one round of the loop adds with the current settings.
    pub fn current_loop_source(&self) -> (r: Vec<FrameItem>)
        ensures
            r@ == loop_frames(self.timeline@, self.selection@, self.loop_scope, self.loop_method),
    {
        if self.loop_scope == LoopScope::Selected && self.selection.is_empty() {
            return Vec::new();
        }
        let sel = match self.loop_scope {
            LoopScope::Selected => copy_set(&self.selection),
            LoopScope::AllFrames => BTreeSet::new(),
        };
        assert(sel@ =~= loop_selection_of(self.selection@, self.loop_scope));
        match self.loop_method {
            LoopMethod::Duplicate => self.timeline.duplicate_loop_source(&sel),
            LoopMethod::Reverse => self.timeline.reverse_loop_source(&sel, true),
            LoopMethod::PingPong => self.timeline.reverse_loop_source(&sel, false),
        }
    }

    /// Appends the loop with the current method, scope and number of rounds;
    /// the new frames become the selection.
    pub fn create_loop(&mut self) -> (acts: Vec<EditorAction>)
        requires
            old(self).timeline.next_id() + repeated(
                loop_frames(old(self).timeline@, old(self).selection@, old(self).loop_scope, old(self).loop_method),
                rounds(old(self).loop_repeats),
            ).len() <= u64::MAX,
        ensures
            ({
                let src = loop_frames(
                    old(self).timeline@,
                    old(self).selection@,
                    old(self).loop_scope,
                    old(self).loop_method,
                );
                let added = repeated(src, rounds(old(self).loop_repeats));
                let ids = fresh_ids(old(self).timeline.next_id(), added.len());
                if old(self).loop_scope == LoopScope::Selected && old(self).selection@.is_empty() {
                    &&& final(self).status@ == "Select a range in the timeline first."@
                    &&& acts@.len() == 0
                    &&& Self::edits_kept(*old(self), *final(self))
                } else if src.len() == 0 {
                    &&& final(self).status@ == "No frames available for loop creation."@
                    &&& acts@.len() == 0
                    &&& Self::edits_kept(*old(self), *final(self))
                } else {
                    &&& final(self).timeline@ == turned(
                        old(self).timeline@,
                        old(self).selection@,
                        old(self).loop_scope,
                        old(self).loop_method,
                    ) + relabeled(added, old(self).timeline.next_id())
                    &&& final(self).timeline.next_id() == old(self).timeline.next_id() + added.len()
                    &&& final(self).selection@ == ids.to_set()
                    &&& final(self).anchor_id == first_of(ids)
                    &&& final(self).clipboard@ == old(self).clipboard@
                    &&& final(self).status@ == "Created a "@ + ascii_lower(old(self).loop_method.title_text())
                        + counted(" loop with "@, added.len(), " new frame(s)."@)
                    &&& refresh_added(ids, acts@)
                }
            }),
            old(self).timeline.wf() ==> final(self).timeline.wf(),
            Self::settings_kept(*old(self), *final(self)),
            Self::playback_stopped(*old(self), *final(self)),
            old(self).coherent() ==> final(self).coherent(),
    {
        self.stop_playback();
        if self.loop_scope == LoopScope::Selected && self.selection.is_empty() {
            self.status = text_of("Select a range in the timeline first.");
            return Vec::new();
        }
        let source = self.current_loop_source();
        if source.len() == 0 {
            self.status = text_of("No frames available for loop creation.");
            return Vec::new();
        }
        if self.loop_method == LoopMethod::PingPong {
            let sel = match self.loop_scope {
                LoopScope::Selected => copy_set(&self.selection),
                LoopScope::AllFrames => BTreeSet::new(),
            };
            assert(sel@ =~= loop_selection_of(self.selection@, self.loop_scope));
            if self.timeline.duplicate_loop_source(&sel).len() > 1 {
                self.timeline.double_loop_ends(&sel);
            }
        }
        let ghost mid = self.timeline@;
        assert(mid == turned(old(self).timeline@, old(self).selection@, old(self).loop_scope, old(self).loop_method));
        let inserted = self.timeline.append_copies(source.as_slice(), self.loop_repeats);
        self.select_ids(&inserted);
        proof {
            if old(self).coherent() {
                let added = repeated(source@, rounds(old(self).loop_repeats));
                lemma_appended_ids(mid, added, old(self).timeline.next_id());
                lemma_fresh_coherent(*self, old(self).timeline.next_id(), added.len());
            }
        }
        let mut status = text_of("Created a ");
        let method = lowercase_ascii(self.loop_method.title());
        push_str(&mut status, method.as_str());
        let rest = counted_text(" loop with ", inserted.len() as u64, " new frame(s).");
        push_str(&mut status, rest.as_str());
        self.status = status;
        refresh_actions(inserted)
    }

    pub fn set_crop_preset(&mut self, preset: CropPreset)
        ensures
            final(self).crop_preset == preset,
            final(self).crop_anchor == old(self).crop_anchor,
            final(self).loop_method == old(self).loop_method,
            final(self).loop_repeats == old(self).loop_repeats,
            final(self).loop_scope == old(self).loop_scope,
            final(self).export_profile == old(self).export_profile,
            final(self).last_output_path == old(self).last_output_path,
            final(self).export_in_progress == old(self).export_in_progress,
            Self::edits_kept(*old(self), *final(self)),
            Self::playback_kept(*old(self), *final(self)),
            final(self).status == old(self).status,
            old(self).coherent() ==> final(self).coherent(),
    {
        self.crop_preset = preset;
    }

    pub fn set_crop_anchor(&mut self, anchor: CropAnchor)
        ensures
            final(self).crop_anchor == anchor,
            final(self).crop_preset == old(self).crop_preset,
            final(self).loop_method == old(self).loop_method,
            final(self).loop_repeats == old(self).loop_repeats,
            final(self).loop_scope == old(self).loop_scope,
            final(self).export_profile == old(self).export_profile,
            final(self).last_output_path == old(self).last_output_path,
            final(self).export_in_progress == old(self).export_in_progress,
            Self::edits_kept(*old(self), *final(self)),
            Self::playback_kept(*old(self), *final(self)),
            final(self).status == old(self).status,
            old(self).coherent() ==> final(self).coherent(),
    {
        self.crop_anchor = anchor;
    }

    /// Crops every selected frame of known size with the current preset and
    /// anchor, and reports how many were cropped and skipped.
    pub fn apply_quick_crop(&mut self) -> (acts: Vec<EditorAction>)
        ensures
            ({
                let s = old(self).timeline@;
                let sel = old(self).selection@;
                let p = old(self).crop_preset;
                let a = old(self).crop_anchor;
                let applied = count_selected_where(s, sel, |f: FrameItem| quick_crop(f, p, a) is Some);
                let skipped = count_selected_where(s, sel, |f: FrameItem| quick_crop(f, p, a) is None);
                if sel.is_empty() {
                    &&& final(self).timeline@ == s
                    &&& final(self).status@ == "Select frames in the timeline before applying a crop."@
                    &&& acts@.len() == 0
                } else {
                    &&& final(self).timeline@ == map_selected(s, sel, |f: FrameItem| quick_cropped(f, p, a))
                    &&& if applied == 0 {
                        &&& final(self).status@
                            == "Crop could not be applied yet because the selected frames have no image size information."@
                        &&& acts@.len() == 0
                    } else {
                        &&& final(self).status@ == "Applied a "@ + ascii_lower(p.title_text()) + counted(
                            " crop to "@,
                            applied,
                            if skipped == 0 {
                                " frame(s)."@
                            } else {
                                " frame(s); skipped "@ + decimal(skipped)
                                    + " frame(s) without image size information."@
                            },
                        )
                        &&& refresh_selected(acts@)
                    }
                }
            }),
            final(self).timeline.next_id() == old(self).timeline.next_id(),
            old(self).timeline.wf() ==> final(self).timeline.wf(),
            final(self).selection@ == old(self).selection@,
            final(self).anchor_id == old(self).anchor_id,
            final(self).clipboard@ == old(self).clipboard@,
            Self::settings_kept(*old(self), *final(self)),
            Self::playback_kept(*old(self), *final(self)),
            old(self).coherent() ==> final(self).coherent(),
    {
        if self.selection.is_empty() {
            self.status = text_of("Select frames in the timeline before applying a crop.");
            return Vec::new();
        }
        let (applied, skipped) = self.timeline.apply_quick_crop(&self.selection, self.crop_preset, self.crop_anchor);
        proof {
            if old(self).coherent() {
                lemma_same_ids(old(self).timeline@, self.timeline@);
                lemma_still_coherent(*old(self), *self);
            }
        }
        if applied == 0 {
            self.status = text_of(
                "Crop could not be applied yet because the selected frames have no image size information.",
            );
            return Vec::new();
        }
        let mut status = text_of("Applied a ");
        let shape = lowercase_ascii(self.crop_preset.title());
        push_str(&mut status, shape.as_str());
        let tail = if skipped == 0 {
            text_of(" frame(s).")
        } else {
            counted_text(" frame(s); skipped ", skipped as u64, " frame(s) without image size information.")
        };
        let rest = counted_text(" crop to ", applied as u64, tail.as_str());
        push_str(&mut status, rest.as_str());
        self.status = status;
        refresh_selection_actions()
    }

    /// Removes the crop of every selected frame and reports how many had one.
    pub fn clear_quick_crop(&mut self) -> (acts: Vec<EditorAction>)
        ensures
            ({
                let s = old(self).timeline@;
                let sel = old(self).selection@;
                let cleared = count_selected_where(s, sel, |f: FrameItem| f.transform_spec.crop is Some);
                if sel.is_empty() {
                    &&& final(self).timeline@ == s
                    &&& final(self).status@ == "Select frames in the timeline before clearing a crop."@
                    &&& acts@.len() == 0
                } else {
                    &&& final(self).timeline@ == map_selected(s, sel, |f: FrameItem| with_crop(f, None))
                    &&& if cleared == 0 {
                        &&& final(self).status@ == "The selected frames do not currently have a crop to clear."@
                        &&& acts@.len() == 0
                    } else {
                        &&& final(self).status@ == counted("Cleared crop from "@, cleared, " frame(s)."@)
                        &&& refresh_selected(acts@)
                    }
                }
            }),
            final(self).timeline.next_id() == old(self).timeline.next_id(),
            old(self).timeline.wf() ==> final(self).timeline.wf(),
            final(self).selection@ == old(self).selection@,
            final(self).anchor_id == old(self).anchor_id,
            final(self).clipboard@ == old(self).clipboard@,
            Self::settings_kept(*old(self), *final(self)),
            Self::playback_kept(*old(self), *final(self)),
            old(self).coherent() ==> final(self).coherent(),
    {
        if self.selection.is_empty() {
            self.status = text_of("Select frames in the timeline before clearing a crop.");
            return Vec::new();
        }
        let cleared = self.timeline.clear_selection_crop(&self.selection);
        proof {
            if old(self).coherent() {
                lemma_same_ids(old(self).timeline@, self.timeline@);
                lemma_still_coherent(*old(self), *self);
            }
        }
        if cleared == 0 {
            self.status = text_of("The selected frames do not currently have a crop to clear.");
            return Vec::new();
        }
        self.status = counted_text("Cleared crop from ", cleared as u64, " frame(s).");
        refresh_selection_actions()
    }

    /// Adds quarter turns to every selected frame.
    pub fn rotate_selection(&mut self, delta: i32) -> (acts: Vec<EditorAction>)
        requires
            forall|i: int|
                0 <= i < old(self).timeline@.len() && old(self).selection@.contains(
                    #[trigger] old(self).timeline@[i].id,
                ) ==> i32::MIN <= old(self).timeline@[i].transform_spec.rotate_quarter_turns + delta <= i32::MAX,
        ensures
            final(self).timeline@ == map_selected(
                old(self).timeline@,
                old(self).selection@,
                |f: FrameItem| rotated_by(f, delta),
            ),
            final(self).status@ == "Updated rotation for selected frames."@,
            refresh_selected(acts@),
            final(self).timeline.next_id() == old(self).timeline.next_id(),
            old(self).timeline.wf() ==> final(self).timeline.wf(),
            final(self).selection@ == old(self).selection@,
            final(self).anchor_id == old(self).anchor_id,
            final(self).clipboard@ == old(self).clipboard@,
            Self::settings_kept(*old(self), *final(self)),
            Self::playback_kept(*old(self), *final(self)),
            old(self).coherent() ==> final(self).coherent(),
    {
        self.timeline.rotate_selection(&self.selection, delta);
        proof {
            if old(self).coherent() {
                lemma_same_ids(old(self).timeline@, self.timeline@);
                lemma_still_coherent(*old(self), *self);
            }
        }
        self.status = text_of("Updated rotation for selected frames.");
        refresh_selection_actions()
    }

    /// Flips every selected frame horizontally or vertically.
    pub fn toggle_selection_flip(&mut self, horizontal: bool) -> (acts: Vec<EditorAction>)
        ensures
            final(self).timeline@ == map_selected(
                old(self).timeline@,
                old(self).selection@,
                |f: FrameItem| flipped(f, horizontal),
            ),
            final(self).status@ == if horizontal {
                "Updated horizontal flip for selected frames."@
            } else {
                "Updated vertical flip for selected frames."@
            },
            refresh_selected(acts@),
            final(self).timeline.next_id() == old(self).timeline.next_id(),
            old(self).timeline.wf() ==> final(self).timeline.wf(),
            final(self).selection@ == old(self).selection@,
            final(self).anchor_id == old(self).anchor_id,
            final(self).clipboard@ == old(self).clipboard@,
            Self::settings_kept(*old(self), *final(self)),
            Self::playback_kept(*old(self), *final(self)),
            old(self).coherent() ==> final(self).coherent(),
    {
        self.timeline.toggle_selection_flip(&self.selection, horizontal);
        proof {
            if old(self).coherent() {
                lemma_same_ids(old(self).timeline@, self.timeline@);
                lemma_still_coherent(*old(self), *self);
            }
        }
        self.status = if horizontal {
            text_of("Updated horizontal flip for selected frames.")
        } else {
            text_of("Updated vertical flip for selected frames.")
        };
        refresh_selection_actions()
    }

    /// Gives every selected frame the inspector's flips, crop, resize and
    /// fit.
    pub fn apply_inspector_values(&mut self, values: InspectorValues) -> (acts: Vec<EditorAction>)
        ensures
            final(self).timeline@ == map_selected(
                old(self).timeline@,
                old(self).selection@,
                |f: FrameItem| with_inspector(f, values),
            ),
            final(self).status@ == "Applied edit values to selected frames."@,
            refresh_selected(acts@),
            final(self).timeline.next_id() == old(self).timeline.next_id(),
            old(self).timeline.wf() ==> final(self).timeline.wf(),
            final(self).selection@ == old(self).selection@,
            final(self).anchor_id == old(self).anchor_id,
            final(self).clipboard@ == old(self).clipboard@,
            Self::settings_kept(*old(self), *final(self)),
            Self::playback_kept(*old(self), *final(self)),
            old(self).coherent() ==> final(self).coherent(),
    {
        self.timeline.apply_inspector_values(&self.selection, values);
        proof {
            if old(self).coherent() {
                lemma_same_ids(old(self).timeline@, self.timeline@);
                lemma_still_coherent(*old(self), *self);
            }
        }
        self.status = text_of("Applied edit values to selected frames.");
        refresh_selection_actions()
    }
}

/// How long the shown frame stays during playback: the duration of the
/// first selected frame, at least 10 ms, or 100 ms without one.
pub open spec fn advance_delay(s: Seq<FrameItem>, sel: Set<u64>) -> u64 {
    let c = chosen(s, sel);
    if c.len() > 0 {
        at_least_ten(c[0].duration_ms) as u64
    } else {
        100
    }
}

/// The selection after showing frame `id` alone, and whether the preview
/// needs refreshing (not when `id` alone was already selected and
/// anchored).
pub open spec fn single_selected(sel: Set<u64>, anchor: Option<u64>, id: u64) -> bool {
    sel == set![id] && anchor == Some(id)
}

impl Editor {
    /// The first selected frame of the timeline.
    pub open spec fn primary(self) -> Option<u64> {
        first_member(self.ids(), self.selection@)
    }

    /// Shows frame `id` alone; asks for a preview unless it already was.
    fn select_single_frame(&mut self, id: u64, acts: &mut Vec<EditorAction>)
        ensures
            final(self).selection@ == set![id],
            final(self).anchor_id == Some(id),
            final(acts)@ == if single_selected(old(self).selection@, old(self).anchor_id, id) {
                old(acts)@
            } else {
                old(acts)@.push(EditorAction::RefreshPreview)
            },
            final(self).timeline@ == old(self).timeline@,
            final(self).timeline.next_id() == old(self).timeline.next_id(),
            final(self).clipboard@ == old(self).clipboard@,
            final(self).status == old(self).status,
            Self::settings_kept(*old(self), *final(self)),
            Self::playback_kept(*old(self), *final(self)),
    {
        if self.selection.len() == 1 && self.selection.contains(&id) && self.anchor_id == Some(id) {
            proof {
                lemma_single_member(&self.selection, id);
            }
            return;
        }
        self.selection = singleton(id);
        self.anchor_id = Some(id);
        acts.push(EditorAction::RefreshPreview);
    }

    /// Asks for the next playback step when playback runs.
    fn schedule_advance(&self, generation: u64, acts: &mut Vec<EditorAction>)
        ensures
            final(acts)@ == if self.playback_active {
                old(acts)@.push(
                    EditorAction::SchedulePlaybackAdvance {
                        generation,
                        delay_ms: advance_delay(self.timeline@, self.selection@),
                    },
                )
            } else {
                old(acts)@
            },
    {
        if !self.playback_active {
            return;
        }
        let chosen_frames = self.timeline.selected_frames(&self.selection);
        let delay_ms: u64 = if chosen_frames.len() > 0 {
            let d = chosen_frames[0].duration_ms;
            if d > 10 {
                d as u64
            } else {
                10
            }
        } else {
            100
        };
        acts.push(EditorAction::SchedulePlaybackAdvance { generation, delay_ms });
    }

    /// Shows the first (or, with `end`, the last) frame alone.
    pub fn go_to_boundary(&mut self, end: bool) -> (acts: Vec<EditorAction>)
        ensures
            ({
                let ids = old(self).ids();
                if ids.len() == 0 {
                    &&& final(self).status@ == "No frames in timeline."@
                    &&& final(self).selection@ == old(self).selection@
                    &&& final(self).anchor_id == old(self).anchor_id
                    &&& acts@.len() == 0
                } else {
                    let target = if end {
                        ids.last()
                    } else {
                        ids[0]
                    };
                    &&& final(self).selection@ == set![target]
                    &&& final(self).anchor_id == Some(target)
                    &&& acts@ == if single_selected(old(self).selection@, old(self).anchor_id, target) {
                        Seq::<EditorAction>::empty()
                    } else {
                        seq![EditorAction::RefreshPreview]
                    }
                    &&& final(self).status@ == if end {
                        "Moved to last frame."@
                    } else {
                        "Moved to first frame."@
                    }
                }
            }),
            final(self).timeline@ == old(self).timeline@,
            final(self).timeline.next_id() == old(self).timeline.next_id(),
            final(self).clipboard@ == old(self).clipboard@,
            Self::settings_kept(*old(self), *final(self)),
            Self::playback_stopped(*old(self), *final(self)),
            old(self).coherent() ==> final(self).coherent(),
    {
        self.stop_playback();
        let ids = self.timeline.frame_id_list();
        let mut acts: Vec<EditorAction> = Vec::new();
        if ids.len() == 0 {
            self.status = text_of("No frames in timeline.");
            return acts;
        }
        let target = if end {
            ids[ids.len() - 1]
        } else {
            ids[0]
        };
        self.select_single_frame(target, &mut acts);
        self.status = if end {
            text_of("Moved to last frame.")
        } else {
            text_of("Moved to first frame.")
        };
        acts
    }

    /// Shows alone the frame `offset` steps from the first selected one,
    /// stopping at the ends.
    pub fn step(&mut self, offset: isize) -> (acts: Vec<EditorAction>)
        ensures
            ({
                match stepped(old(self).ids(), old(self).primary(), offset as int) {
                    None => {
                        &&& final(self).status@ == "No frames in timeline."@
                        &&& final(self).selection@ == old(self).selection@
                        &&& final(self).anchor_id == old(self).anchor_id
                        &&& acts@.len() == 0
                    },
                    Some(target) => {
                        &&& final(self).selection@ == set![target]
                        &&& final(self).anchor_id == Some(target)
                        &&& acts@ == if single_selected(old(self).selection@, old(self).anchor_id, target) {
                            Seq::<EditorAction>::empty()
                        } else {
                            seq![EditorAction::RefreshPreview]
                        }
                        &&& final(self).status@ == if offset < 0 {
                            "Moved back one frame."@
                        } else {
                            "Moved forward one frame."@
                        }
                    },
                }
            }),
            final(self).timeline@ == old(self).timeline@,
            final(self).timeline.next_id() == old(self).timeline.next_id(),
            final(self).clipboard@ == old(self).clipboard@,
            Self::settings_kept(*old(self), *final(self)),
            Self::playback_stopped(*old(self), *final(self)),
            old(self).coherent() ==> final(self).coherent(),
    {
        self.stop_playback();
        let ids = self.timeline.frame_id_list();
        let current = self.timeline.primary_selected_id(&self.selection);
        let mut acts: Vec<EditorAction> = Vec::new();
        match step_frame_id(ids.as_slice(), current, offset) {
            None => {
                self.status = text_of("No frames in timeline.");
            },
            Some(target) => {
                self.select_single_frame(target, &mut acts);
                self.status = if offset < 0 {
                    text_of("Moved back one frame.")
                } else {
                    text_of("Moved forward one frame.")
                };
            },
        }
        acts
    }

    /// Pauses running playback, or starts it from the first selected frame
    /// (from the first frame when that is the last one or nothing is
    /// selected).
    pub fn toggle_playback(&mut self) -> (acts: Vec<EditorAction>)
        ensures
            ({
                if old(self).playback_active {
                    &&& Self::playback_stopped(*old(self), *final(self))
                    &&& final(self).status@ == "Playback paused."@
                    &&& final(self).selection@ == old(self).selection@
                    &&& final(self).anchor_id == old(self).anchor_id
                    &&& acts@.len() == 0
                } else {
                    match playback_start(old(self).ids(), old(self).primary()) {
                        None => {
                            &&& Self::playback_kept(*old(self), *final(self))
                            &&& final(self).status@ == "No frames in timeline."@
                            &&& final(self).selection@ == old(self).selection@
                            &&& final(self).anchor_id == old(self).anchor_id
                            &&& acts@.len() == 0
                        },
                        Some(start) => {
                            let generation = stopped_generation(true, old(self).playback_generation);
                            let preview = if single_selected(old(self).selection@, old(self).anchor_id, start) {
                                Seq::<EditorAction>::empty()
                            } else {
                                seq![EditorAction::RefreshPreview]
                            };
                            &&& final(self).playback_active
                            &&& final(self).playback_generation == generation
                            &&& final(self).selection@ == set![start]
                            &&& final(self).anchor_id == Some(start)
                            &&& final(self).status@ == "Playback started."@
                            &&& acts@ == preview.push(
                                EditorAction::SchedulePlaybackAdvance {
                                    generation,
                                    delay_ms: advance_delay(old(self).timeline@, set![start]),
                                },
                            )
                        },
                    }
                }
            }),
            final(self).timeline@ == old(self).timeline@,
            final(self).timeline.next_id() == old(self).timeline.next_id(),
            final(self).clipboard@ == old(self).clipboard@,
            Self::settings_kept(*old(self), *final(self)),
            old(self).coherent() ==> final(self).coherent(),
    {
        let mut acts: Vec<EditorAction> = Vec::new();
        if self.playback_active {
            self.stop_playback();
            self.status = text_of("Playback paused.");
            return acts;
        }
        let ids = self.timeline.frame_id_list();
        let current = self.timeline.primary_selected_id(&self.selection);
        let start = match playback_start_frame_id(ids.as_slice(), current) {
            Some(s) => s,
            None => {
                self.status = text_of("No frames in timeline.");
                return acts;
            },
        };
        self.playback_generation = self.playback_generation.wrapping_add(1);
        self.playback_active = true;
        self.select_single_frame(start, &mut acts);
        proof {
            if old(self).coherent() {
                crate::ui::law_playback_stays_on_timeline(old(self).ids(), current);
                lemma_single_coherent(*self, start);
            }
        }
        self.status = text_of("Playback started.");
        let generation = self.playback_generation;
        self.schedule_advance(generation, &mut acts);
        acts
    }

    /// A playback step that was scheduled for `generation`: ignored unless
    /// playback of that generation still runs; then the following frame is
    /// shown and the next step scheduled, or playback ends after the last
    /// frame.
    pub fn playback_advance(&mut self, generation: u64) -> (acts: Vec<EditorAction>)
        ensures
            ({
                if generation != old(self).playback_generation || !old(self).playback_active {
                    &&& Self::playback_kept(*old(self), *final(self))
                    &&& final(self).selection@ == old(self).selection@
                    &&& final(self).anchor_id == old(self).anchor_id
                    &&& final(self).status == old(self).status
                    &&& acts@.len() == 0
                } else {
                    match following(old(self).ids(), old(self).primary()) {
                        Some(next) => {
                            let preview = if single_selected(old(self).selection@, old(self).anchor_id, next) {
                                Seq::<EditorAction>::empty()
                            } else {
                                seq![EditorAction::RefreshPreview]
                            };
                            &&& Self::playback_kept(*old(self), *final(self))
                            &&& final(self).selection@ == set![next]
                            &&& final(self).anchor_id == Some(next)
                            &&& final(self).status == old(self).status
                            &&& acts@ == preview.push(
                                EditorAction::SchedulePlaybackAdvance {
                                    generation,
                                    delay_ms: advance_delay(old(self).timeline@, set![next]),
                                },
                            )
                        },
                        None => {
                            &&& Self::playback_stopped(*old(self), *final(self))
                            &&& final(self).selection@ == old(self).selection@
                            &&& final(self).anchor_id == old(self).anchor_id
                            &&& final(self).status@ == "Playback finished."@
                            &&& acts@.len() == 0
                        },
                    }
                }
            }),
            final(self).timeline@ == old(self).timeline@,
            final(self).timeline.next_id() == old(self).timeline.next_id(),
            final(self).clipboard@ == old(self).clipboard@,
            Self::settings_kept(*old(self), *final(self)),
            old(self).coherent() ==> final(self).coherent(),
    {
        let mut acts: Vec<EditorAction> = Vec::new();
        if generation != self.playback_generation || !self.playback_active {
            return acts;
        }
        let ids = self.timeline.frame_id_list();
        let current = self.timeline.primary_selected_id(&self.selection);
        match following_frame_id(ids.as_slice(), current) {
            Some(next) => {
                self.select_single_frame(next, &mut acts);
                proof {
                    if old(self).coherent() {
                        crate::ui::law_playback_stays_on_timeline(old(self).ids(), current);
                        lemma_single_coherent(*self, next);
                    }
                }
                self.schedule_advance(generation, &mut acts);
            },
            None => {
                self.stop_playback();
                self.status = text_of("Playback finished.");
            },
        }
        acts
    }
}

/// A set of one element that holds `id` is the set of `id` alone.
proof fn lemma_single_member(set: &BTreeSet<u64>, id: u64)
    requires
        set@.len() == 1,
        set@.contains(id),
    ensures
        set@ == set![id],
{
    vstd::std_specs::btree::axiom_spec_btree_keys_iter(set);
    let keys = vstd::std_specs::iter::IteratorSpec::remaining(&vstd::std_specs::btree::spec_btree_keys_iter(set)).unref();
    assert(keys.len() == 1);
    assert(keys =~= seq![keys[0]]);
    assert(seq![keys[0]].to_set() =~= set![keys[0]]) by {
        assert forall|x: u64| seq![keys[0]].to_set().contains(x) <==> set![keys[0]].contains(x) by {
            if x == keys[0] {
                assert(seq![keys[0]][0] == x);
            }
        }
    }
}

/// The actions after an export setting changed.
pub open spec fn invalidates(acts: Seq<EditorAction>) -> bool {
    acts.len() == 1 && acts[0] is InvalidateExportPreview
}

fn invalidate_actions() -> (acts: Vec<EditorAction>)
    ensures
        invalidates(acts@),
{
    let mut acts: Vec<EditorAction> = Vec::new();
    acts.push(EditorAction::InvalidateExportPreview);
    acts
}

/// An output size side from its field: none for zero.
pub open spec fn side_of(v: u32) -> Option<u32> {
    if v == 0 {
        None
    } else {
        Some(v)
    }
}

impl Editor {
    /// Everything but the export profile is the same in `a` and `b`.
    pub open spec fn all_but_profile_kept(a: Editor, b: Editor) -> bool {
        &&& Self::edits_kept(a, b)
        &&& Self::playback_kept(a, b)
        &&& a.status == b.status
        &&& a.loop_method == b.loop_method
        &&& a.loop_repeats == b.loop_repeats
        &&& a.loop_scope == b.loop_scope
        &&& a.crop_preset == b.crop_preset
        &&& a.crop_anchor == b.crop_anchor
        &&& a.last_output_path == b.last_output_path
        &&& a.export_in_progress == b.export_in_progress
    }

    /// Switches the export preset.
    pub fn set_export_preset(&mut self, preset: ExportPreset) -> (acts: Vec<EditorAction>)
        ensures
            final(self).export_profile.preset_settings(preset),
            final(self).export_profile.format == old(self).export_profile.format,
            final(self).export_profile.output_width == old(self).export_profile.output_width,
            final(self).export_profile.output_height == old(self).export_profile.output_height,
            final(self).export_profile.original_size_reference == old(self).export_profile.original_size_reference,
            final(self).export_profile.loop_count == old(self).export_profile.loop_count,
            final(self).export_profile.overwrite == old(self).export_profile.overwrite,
            final(self).export_profile.mp4_video_encoder == old(self).export_profile.mp4_video_encoder,
            final(self).export_profile.raw_args == old(self).export_profile.raw_args,
            invalidates(acts@),
            Self::all_but_profile_kept(*old(self), *final(self)),
            old(self).coherent() ==> final(self).coherent(),
    {
        self.export_profile.apply_preset(preset);
        invalidate_actions()
    }

    /// Sets the output size from a size preset; a custom size also shows
    /// the advanced controls.
    pub fn set_export_size_preset(&mut self, preset: DimensionPreset) -> (acts: Vec<EditorAction>)
        ensures
            final(self).export_profile.output_width == match preset {
                DimensionPreset::Original => None,
                DimensionPreset::Hd1080 => Some(1920u32),
                DimensionPreset::Hd720 => Some(1280u32),
                DimensionPreset::Custom => match old(self).export_profile.output_width {
                    Some(w) => Some(w),
                    None => Some(1280u32),
                },
            },
            final(self).export_profile.output_height == match preset {
                DimensionPreset::Original => None,
                DimensionPreset::Hd1080 => Some(1080u32),
                DimensionPreset::Hd720 => Some(720u32),
                DimensionPreset::Custom => match old(self).export_profile.output_height {
                    Some(h) => Some(h),
                    None => Some(720u32),
                },
            },
            final(self).export_profile == (ExportProfile {
                output_width: final(self).export_profile.output_width,
                output_height: final(self).export_profile.output_height,
                ..old(self).export_profile
            }),
            acts@.len() >= 1 && acts@[0] is InvalidateExportPreview,
            acts@.len() == if preset == DimensionPreset::Custom {
                2int
            } else {
                1int
            },
            preset == DimensionPreset::Custom ==> acts@[1] is ShowAdvancedControls,
            Self::all_but_profile_kept(*old(self), *final(self)),
            old(self).coherent() ==> final(self).coherent(),
    {
        let advanced = apply_export_size_preset(&mut self.export_profile, preset);
        let mut acts = invalidate_actions();
        if advanced {
            acts.push(EditorAction::ShowAdvancedControls);
        }
        acts
    }

    /// The output path typed in: trimmed, and none when nothing is left.
    pub fn set_output_path(&mut self, text: &str)
        ensures
            trimmed(text@).len() == 0 ==> final(self).last_output_path is None,
            trimmed(text@).len() > 0 ==> (final(self).last_output_path matches Some(p) && p@ == trimmed(text@)),
            Self::edits_kept(*old(self), *final(self)),
            Self::playback_kept(*old(self), *final(self)),
            final(self).status == old(self).status,
            final(self).export_profile == old(self).export_profile,
            final(self).export_in_progress == old(self).export_in_progress,
            final(self).loop_method == old(self).loop_method,
            final(self).loop_repeats == old(self).loop_repeats,
            final(self).loop_scope == old(self).loop_scope,
            final(self).crop_preset == old(self).crop_preset,
            final(self).crop_anchor == old(self).crop_anchor,
            old(self).coherent() ==> final(self).coherent(),
    {
        let t = trim_text(text);
        self.last_output_path = if t.as_str().is_empty() {
            None
        } else {
            Some(t)
        };
    }

    /// The output path picked in the file chooser.
    pub fn choose_output_path(&mut self, path: String)
        ensures
            final(self).last_output_path == Some(path),
            Self::edits_kept(*old(self), *final(self)),
            Self::playback_kept(*old(self), *final(self)),
            final(self).status == old(self).status,
            final(self).export_profile == old(self).export_profile,
            final(self).export_in_progress == old(self).export_in_progress,
            final(self).loop_method == old(self).loop_method,
            final(self).loop_repeats == old(self).loop_repeats,
            final(self).loop_scope == old(self).loop_scope,
            final(self).crop_preset == old(self).crop_preset,
            final(self).crop_anchor == old(self).crop_anchor,
            old(self).coherent() ==> final(self).coherent(),
    {
        self.last_output_path = Some(path);
    }

    /// The output width field; zero leaves the width to the frames.
    pub fn set_output_width(&mut self, width: u32) -> (acts: Vec<EditorAction>)
        ensures
            final(self).export_profile == (ExportProfile { output_width: side_of(width), ..old(self).export_profile }),
            invalidates(acts@),
            Self::all_but_profile_kept(*old(self), *final(self)),
            old(self).coherent() ==> final(self).coherent(),
    {
        self.export_profile.output_width = if width == 0 {
            None
        } else {
            Some(width)
        };
        invalidate_actions()
    }

    /// The output height field; zero leaves the height to the frames.
    pub fn set_output_height(&mut self, height: u32) -> (acts: Vec<EditorAction>)
        ensures
            final(self).export_profile == (ExportProfile { output_height: side_of(height), ..old(self).export_profile }),
            invalidates(acts@),
            Self::all_but_profile_kept(*old(self), *final(self)),
            old(self).coherent() ==> final(self).coherent(),
    {
        self.export_profile.output_height = if height == 0 {
            None
        } else {
            Some(height)
        };
        invalidate_actions()
    }

    /// The quality, in hundredths, at most 100.00.
    pub fn set_quality(&mut self, quality_hundredths: u32)
        ensures
            final(self).export_profile == (ExportProfile {
                quality_hundredths: if quality_hundredths > 10000 {
                    10000
                } else {
                    quality_hundredths
                },
                ..old(self).export_profile
            }),
            Self::all_but_profile_kept(*old(self), *final(self)),
            old(self).coherent() ==> final(self).coherent(),
    {
        self.export_profile.quality_hundredths = if quality_hundredths > 10000 {
            10000
        } else {
            quality_hundredths
        };
    }

    pub fn set_lossless(&mut self, lossless: bool)
        ensures
            final(self).export_profile == (ExportProfile { lossless, ..old(self).export_profile }),
            Self::all_but_profile_kept(*old(self), *final(self)),
            old(self).coherent() ==> final(self).coherent(),
    {
        self.export_profile.lossless = lossless;
    }

    pub fn set_encoder_preset(&mut self, encoder_preset: EncoderPreset)
        ensures
            final(self).export_profile == (ExportProfile { encoder_preset, ..old(self).export_profile }),
            Self::all_but_profile_kept(*old(self), *final(self)),
            old(self).coherent() ==> final(self).coherent(),
    {
        self.export_profile.encoder_preset = encoder_preset;
    }

    pub fn set_cr_threshold(&mut self, cr_threshold: u32)
        ensures
            final(self).export_profile == (ExportProfile { cr_threshold, ..old(self).export_profile }),
            Self::all_but_profile_kept(*old(self), *final(self)),
            old(self).coherent() ==> final(self).coherent(),
    {
        self.export_profile.cr_threshold = cr_threshold;
    }

    pub fn set_cr_size(&mut self, cr_size: u32)
        ensures
            final(self).export_profile == (ExportProfile { cr_size, ..old(self).export_profile }),
            Self::all_but_profile_kept(*old(self), *final(self)),
            old(self).coherent() ==> final(self).coherent(),
    {
        self.export_profile.cr_size = cr_size;
    }

    pub fn set_loop_count(&mut self, loop_count: u32)
        ensures
            final(self).export_profile == (ExportProfile { loop_count, ..old(self).export_profile }),
            Self::all_but_profile_kept(*old(self), *final(self)),
            old(self).coherent() ==> final(self).coherent(),
    {
        self.export_profile.loop_count = loop_count;
    }

    pub fn set_overwrite(&mut self, overwrite: bool)
        ensures
            final(self).export_profile == (ExportProfile { overwrite, ..old(self).export_profile }),
            Self::all_but_profile_kept(*old(self), *final(self)),
            old(self).coherent() ==> final(self).coherent(),
    {
        self.export_profile.overwrite = overwrite;
    }

    /// How frames are fitted into the export size.
    pub fn set_export_fit_mode(&mut self, fit_mode: FitMode) -> (acts: Vec<EditorAction>)
        ensures
            final(self).export_profile == (ExportProfile { fit_mode, ..old(self).export_profile }),
            invalidates(acts@),
            Self::all_but_profile_kept(*old(self), *final(self)),
            old(self).coherent() ==> final(self).coherent(),
    {
        self.export_profile.fit_mode = fit_mode;
        invalidate_actions()
    }

    /// The extra ffmpeg arguments, as typed.
    pub fn set_raw_args(&mut self, raw_args: String)
        ensures
            final(self).export_profile == (ExportProfile { raw_args, ..old(self).export_profile }),
            Self::all_but_profile_kept(*old(self), *final(self)),
            old(self).coherent() ==> final(self).coherent(),
    {
        self.export_profile.raw_args = raw_args;
    }

    /// Starts an export to the chosen output path, unless there is none or
    /// one is already running.
    pub fn export_now(&mut self) -> (acts: Vec<EditorAction>)
        ensures
            match old(self).last_output_path {
                None => {
                    &&& final(self).status@ == "Choose an output path first."@
                    &&& final(self).export_in_progress == old(self).export_in_progress
                    &&& acts@.len() == 0
                },
                Some(p) => if old(self).export_in_progress {
                    &&& final(self).status@ == "Export already running."@
                    &&& final(self).export_in_progress
                    &&& acts@.len() == 0
                } else {
                    &&& final(self).status@ == "Exporting to "@ + p@ + " ..."@
                    &&& final(self).export_in_progress
                    &&& acts@.len() == 1
                    &&& acts@[0] matches EditorAction::StartExport { output_path } && output_path@ == p@
                },
            },
            Self::edits_kept(*old(self), *final(self)),
            Self::playback_kept(*old(self), *final(self)),
            final(self).export_profile == old(self).export_profile,
            final(self).last_output_path == old(self).last_output_path,
            final(self).loop_method == old(self).loop_method,
            final(self).loop_repeats == old(self).loop_repeats,
            final(self).loop_scope == old(self).loop_scope,
            final(self).crop_preset == old(self).crop_preset,
            final(self).crop_anchor == old(self).crop_anchor,
            old(self).coherent() ==> final(self).coherent(),
    {
        let output_path = match &self.last_output_path {
            Some(p) => p.clone(),
            None => {
                self.status = text_of("Choose an output path first.");
                return Vec::new();
            },
        };
        if self.export_in_progress {
            self.status = text_of("Export already running.");
            return Vec::new();
        }
        self.export_in_progress = true;
        let mut status = text_of("Exporting to ");
        push_str(&mut status, output_path.as_str());
        push_str(&mut status, " ...");
        self.status = status;
        let mut acts: Vec<EditorAction> = Vec::new();
        acts.push(EditorAction::StartExport { output_path });
        acts
    }

    /// An export ended, with the written path or the reason it failed.
    pub fn export_finished(&mut self, result: Result<String, String>)
        ensures
            !final(self).export_in_progress,
            final(self).status@ == match result {
                Ok(p) => "Exported "@ + p@,
                Err(e) => "Export failed: "@ + e@,
            },
            Self::edits_kept(*old(self), *final(self)),
            Self::playback_kept(*old(self), *final(self)),
            final(self).export_profile == old(self).export_profile,
            final(self).last_output_path == old(self).last_output_path,
            final(self).loop_method == old(self).loop_method,
            final(self).loop_repeats == old(self).loop_repeats,
            final(self).loop_scope == old(self).loop_scope,
            final(self).crop_preset == old(self).crop_preset,
            final(self).crop_anchor == old(self).crop_anchor,
            old(self).coherent() ==> final(self).coherent(),
    {
        self.export_in_progress = false;
        let mut status = match &result {
            Ok(_) => text_of("Exported "),
            Err(_) => text_of("Export failed: "),
        };
        match &result {
            Ok(p) => push_str(&mut status, p.as_str()),
            Err(e) => push_str(&mut status, e.as_str()),
        }
        self.status = status;
    }

    /// Replaces the project with a loaded one: its frames (all selected,
    /// anchored at the first), export settings and output path.
    pub fn open_project(
        &mut self,
        frames: Vec<FrameItem>,
        export_profile: ExportProfile,
        last_output_path: Option<String>,
        shown_path: &str,
    ) -> (acts: Vec<EditorAction>)
        requires
            max_frame_id(frames@) < u64::MAX,
        ensures
            final(self).timeline@ == frames@,
            final(self).timeline.next_id() == max_frame_id(frames@) + 1,
            final(self).timeline.wf(),
            final(self).selection@ == frame_ids(frames@).to_set(),
            final(self).anchor_id == first_of(frame_ids(frames@)),
            final(self).export_profile == export_profile,
            final(self).last_output_path == last_output_path,
            final(self).status@ == "Loaded project "@ + shown_path@ + ". Refreshing thumbnails..."@,
            acts@.len() == 3,
            acts@[0] is InvalidateExportPreview,
            acts@[1] matches EditorAction::RefreshFrames(v) && v@ == frame_ids(frames@),
            acts@[2] is RefreshPreview,
            final(self).clipboard@ == old(self).clipboard@,
            final(self).export_in_progress == old(self).export_in_progress,
            final(self).loop_method == old(self).loop_method,
            final(self).loop_repeats == old(self).loop_repeats,
            final(self).loop_scope == old(self).loop_scope,
            final(self).crop_preset == old(self).crop_preset,
            final(self).crop_anchor == old(self).crop_anchor,
            Self::playback_stopped(*old(self), *final(self)),
    {
        self.stop_playback();
        self.timeline = Timeline::from_frames(frames);
        let ids = self.timeline.frame_id_list();
        self.select_ids(&ids);
        self.export_profile = export_profile;
        self.last_output_path = last_output_path;
        let mut status = text_of("Loaded project ");
        push_str(&mut status, shown_path);
        push_str(&mut status, ". Refreshing thumbnails...");
        self.status = status;
        let mut acts: Vec<EditorAction> = Vec::new();
        acts.push(EditorAction::InvalidateExportPreview);
        acts.push(EditorAction::RefreshFrames(ids));
        acts.push(EditorAction::RefreshPreview);
        acts
    }

    /// A thumbnail job ended for a frame, with `pending` jobs still
    /// running: what was learned is recorded, and the status reports a
    /// failure, or that all thumbnails are ready.
    pub fn thumbnail_ready(
        &mut self,
        frame_id: u64,
        thumbnail_path: Option<String>,
        dimensions: Option<(u32, u32)>,
        error: Option<String>,
        pending: usize,
    )
        ensures
            final(self).timeline@ == map_first(
                old(self).timeline@,
                frame_id,
                |f: FrameItem| with_metadata(f, thumbnail_path, dimensions),
            ),
            final(self).timeline.next_id() == old(self).timeline.next_id(),
            old(self).timeline.wf() ==> final(self).timeline.wf(),
            match error {
                Some(e) => final(self).status@ == counted("Thumbnail failed for frame "@, frame_id as nat, ": "@)
                    + e@,
                None => if pending == 0 {
                    final(self).status@ == "Timeline thumbnails ready."@
                } else {
                    final(self).status == old(self).status
                },
            },
            final(self).selection@ == old(self).selection@,
            final(self).anchor_id == old(self).anchor_id,
            final(self).clipboard@ == old(self).clipboard@,
            Self::settings_kept(*old(self), *final(self)),
            Self::playback_kept(*old(self), *final(self)),
    {
        self.timeline.set_frame_metadata(frame_id, thumbnail_path, dimensions);
        match error {
            Some(e) => {
                let mut status = counted_text("Thumbnail failed for frame ", frame_id, ": ");
                push_str(&mut status, e.as_str());
                self.status = status;
            },
            None => {
                if pending == 0 {
                    self.status = text_of("Timeline thumbnails ready.");
                }
            },
        }
    }
}

// ---------------------------------------------------------------- texts

/// The first selected frame of the timeline.
pub open spec fn primary_frame(s: Seq<FrameItem>, sel: Set<u64>) -> Option<FrameItem> {
    let c = chosen(s, sel);
    if c.len() > 0 {
        Some(c[0])
    } else {
        None
    }
}

/// The summary of the selection under the timeline.
pub open spec fn selection_summary(total: nat, selected: nat) -> Seq<char> {
    if total == 0 {
        "Add images to begin building your animation."@
    } else if selected == 0 {
        counted(""@, total, " images loaded. Select frames in the timeline to start editing."@)
    } else if selected == 1 {
        "1 frame selected. Changes will apply to that frame unless you expand the selection."@
    } else {
        counted(""@, selected, " frames selected. Batch actions will apply across that range."@)
    }
}

/// `w x h`.
pub open spec fn size_text(w: u32, h: u32) -> Seq<char> {
    decimal(w as nat) + " x "@ + decimal(h as nat)
}

fn size_string(w: u32, h: u32) -> (s: String)
    ensures
        s@ == size_text(w, h),
{
    let mut s = decimal_string(w as u64);
    push_str(&mut s, " x ");
    let d = decimal_string(h as u64);
    push_str(&mut s, d.as_str());
    s
}

/// The first known source size among the frames.
pub open spec fn first_known_size(s: Seq<FrameItem>) -> Option<(u32, u32)>
    decreases s.len(),
{
    if s.len() == 0 {
        None
    } else {
        match s[0].source_dimensions {
            Some(d) => Some(d),
            None => first_known_size(s.drop_first()),
        }
    }
}

/// The export size as shown: the profile's size when both sides are
/// positive, else the first known frame size, else "Original size".
pub open spec fn export_dimensions(p: ExportProfile, s: Seq<FrameItem>) -> Seq<char> {
    match (p.output_width, p.output_height) {
        (Some(w), Some(h)) if w > 0 && h > 0 => size_text(w, h),
        _ => match first_known_size(s) {
            Some((w, h)) => size_text(w, h),
            None => "Original size"@,
        },
    }
}

/// The text of the crop panel.
pub open spec fn crop_summary(s: Seq<FrameItem>, sel: Set<u64>, p: CropPreset, a: CropAnchor) -> Seq<char> {
    let intro = "Choose a crop shape, then apply it to the selected frames."@;
    if sel.is_empty() {
        intro
    } else {
        match primary_frame(s, sel) {
            None => intro,
            Some(f) => match quick_crop(f, p, a) {
                None => "Crop will be ready once the selected frame dimensions are known."@,
                Some(c) => {
                    let current = match f.transform_spec.crop {
                        Some(e) => "Current crop: "@ + size_text(e.width, e.height) + ". "@,
                        None => Seq::empty(),
                    };
                    current + p.title_text() + " preset. "@ + p.helper() + " "@ + a.helper()
                        + ". Primary frame preview crop: "@ + size_text(c.width, c.height) + " at "@ + decimal(
                        c.x as nat,
                    ) + ","@ + decimal(c.y as nat) + "."@
                },
            },
        }
    }
}

pub open spec fn bool_text(b: bool) -> Seq<char> {
    if b {
        "true"@
    } else {
        "false"@
    }
}

/// The crop as shown under the preview.
pub open spec fn crop_text(t: TransformSpec) -> Seq<char> {
    match t.crop {
        Some(c) => "crop "@ + decimal(c.width as nat) + "x"@ + decimal(c.height as nat) + "+"@ + decimal(c.x as nat)
            + ","@ + decimal(c.y as nat),
        None => "no crop"@,
    }
}

/// The resize as shown under the preview.
pub open spec fn resize_text(t: TransformSpec) -> Seq<char> {
    match t.resize {
        Some(r) => "resize "@ + decimal(r.width as nat) + "x"@ + decimal(r.height as nat),
        None => "no resize"@,
    }
}

/// The frame's size as shown under the preview.
pub open spec fn dims_text(f: FrameItem) -> Seq<char> {
    match f.source_dimensions {
        Some((w, h)) => size_text(w, h),
        None => "unknown"@,
    }
}

/// The end of the short description: duration and whether it is resized.
pub open spec fn basic_tail(f: FrameItem) -> Seq<char> {
    " • "@ + decimal(f.duration_ms as nat) + " ms"@ + if f.transform_spec.resize is Some {
        " • resized"@
    } else {
        ""@
    }
}

/// The end of the full description: duration, rotation, crop, resize, fit
/// and flips.
pub open spec fn advanced_tail(f: FrameItem) -> Seq<char> {
    let t = f.transform_spec;
    " | "@ + decimal(f.duration_ms as nat) + " ms | rotate "@ + decimal(quarter_turns(t.rotate_quarter_turns) as nat)
        + " quarter-turns\n"@ + crop_text(t) + " | "@ + resize_text(t) + " | fit "@ + t.fit_mode.label()
        + " | flip h:"@ + bool_text(t.flip_horizontal) + " v:"@ + bool_text(t.flip_vertical)
}

/// The text under the preview for a frame.
pub open spec fn preview_meta(frame: Option<FrameItem>, advanced: bool) -> Seq<char> {
    match frame {
        None => "Select a frame to inspect it."@,
        Some(f) => f.display_name() + "\n"@ + dims_text(f) + if advanced {
            advanced_tail(f)
        } else {
            basic_tail(f)
        },
    }
}

/// The state shown in the header.
pub open spec fn readiness(
    export_in_progress: bool,
    ffmpeg_ok: bool,
    ffprobe_ok: bool,
    timeline_empty: bool,
    thumbnails_pending: nat,
) -> Seq<char> {
    if export_in_progress {
        "Exporting"@
    } else if !ffmpeg_ok || !ffprobe_ok {
        "Needs Setup"@
    } else if timeline_empty {
        "Add Images"@
    } else if thumbnails_pending > 0 {
        "Preparing"@
    } else {
        "Ready"@
    }
}

pub fn readiness_text(
    export_in_progress: bool,
    ffmpeg_ok: bool,
    ffprobe_ok: bool,
    timeline_empty: bool,
    thumbnails_pending: usize,
) -> (s: &'static str)
    ensures
        s@ == readiness(export_in_progress, ffmpeg_ok, ffprobe_ok, timeline_empty, thumbnails_pending as nat),
{
    if export_in_progress {
        "Exporting"
    } else if !ffmpeg_ok || !ffprobe_ok {
        "Needs Setup"
    } else if timeline_empty {
        "Add Images"
    } else if thumbnails_pending > 0 {
        "Preparing"
    } else {
        "Ready"
    }
}

/// The overview on the diagnostics page: all good, or the first issue.
pub open spec fn diagnostics_overview(d: Diagnostics) -> Seq<char> {
    if d.ffmpeg_ok && d.ffprobe_ok {
        "Everything looks good. ffmpeg and ffprobe are available for export and probing."@
    } else if d.issues@.len() > 0 {
        d.issues@[0]@
    } else {
        "A required system tool is unavailable."@
    }
}

pub fn diagnostics_overview_text(d: &Diagnostics) -> (s: String)
    ensures
        s@ == diagnostics_overview(*d),
{
    if d.ffmpeg_ok && d.ffprobe_ok {
        text_of("Everything looks good. ffmpeg and ffprobe are available for export and probing.")
    } else if d.issues.len() > 0 {
        text_of(d.issues[0].as_str())
    } else {
        text_of("A required system tool is unavailable.")
    }
}

fn push_decimal(s: &mut String, n: u64)
    ensures
        final(s)@ == old(s)@ + decimal(n as nat),
{
    let d = decimal_string(n);
    push_str(s, d.as_str());
}

fn bool_string(b: bool) -> (s: &'static str)
    ensures
        s@ == bool_text(b),
{
    if b {
        "true"
    } else {
        "false"
    }
}

fn dims_string(f: &FrameItem) -> (s: String)
    ensures
        s@ == dims_text(*f),
{
    match f.source_dimensions {
        Some((w, h)) => size_string(w, h),
        None => text_of("unknown"),
    }
}

fn crop_string(t: TransformSpec) -> (s: String)
    ensures
        s@ == crop_text(t),
{
    match t.crop {
        Some(c) => {
            let mut s = text_of("crop ");
            push_decimal(&mut s, c.width as u64);
            push_str(&mut s, "x");
            push_decimal(&mut s, c.height as u64);
            push_str(&mut s, "+");
            push_decimal(&mut s, c.x as u64);
            push_str(&mut s, ",");
            push_decimal(&mut s, c.y as u64);
            s
        },
        None => text_of("no crop"),
    }
}

fn resize_string(t: TransformSpec) -> (s: String)
    ensures
        s@ == resize_text(t),
{
    match t.resize {
        Some(r) => {
            let mut s = text_of("resize ");
            push_decimal(&mut s, r.width as u64);
            push_str(&mut s, "x");
            push_decimal(&mut s, r.height as u64);
            s
        },
        None => text_of("no resize"),
    }
}

fn basic_tail_string(f: &FrameItem) -> (s: String)
    ensures
        s@ == basic_tail(*f),
{
    let mut s = text_of(" • ");
    push_decimal(&mut s, f.duration_ms as u64);
    push_str(&mut s, " ms");
    if f.transform_spec.resize.is_some() {
        push_str(&mut s, " • resized");
    } else {
        push_str(&mut s, "");
    }
    s
}

fn advanced_tail_string(f: &FrameItem) -> (s: String)
    ensures
        s@ == advanced_tail(*f),
{
    let t = f.transform_spec;
    let mut s = text_of(" | ");
    push_decimal(&mut s, f.duration_ms as u64);
    push_str(&mut s, " ms | rotate ");
    let q = quarter_turns_of(t.rotate_quarter_turns);
    push_decimal(&mut s, q as u64);
    push_str(&mut s, " quarter-turns\n");
    let crop = crop_string(t);
    push_str(&mut s, crop.as_str());
    push_str(&mut s, " | ");
    let resize = resize_string(t);
    push_str(&mut s, resize.as_str());
    push_str(&mut s, " | fit ");
    push_str(&mut s, t.fit_mode.as_str());
    push_str(&mut s, " | flip h:");
    push_str(&mut s, bool_string(t.flip_horizontal));
    push_str(&mut s, " v:");
    push_str(&mut s, bool_string(t.flip_vertical));
    s
}

impl Editor {
    /// The first selected frame of the timeline.
    pub fn primary_selected_frame(&self) -> (r: Option<FrameItem>)
        ensures
            r == primary_frame(self.timeline@, self.selection@),
    {
        let chosen_frames = self.timeline.selected_frames(&self.selection);
        if chosen_frames.len() > 0 {
            Some(chosen_frames[0].clone())
        } else {
            None
        }
    }

    pub fn selection_summary_text(&self) -> (s: String)
        ensures
            s@ == selection_summary(self.timeline@.len(), self.selection@.len()),
    {
        let total = self.timeline.frames().len();
        let selected = self.selection.len();
        if total == 0 {
            text_of("Add images to begin building your animation.")
        } else if selected == 0 {
            counted_text("", total as u64, " images loaded. Select frames in the timeline to start editing.")
        } else if selected == 1 {
            text_of("1 frame selected. Changes will apply to that frame unless you expand the selection.")
        } else {
            counted_text("", selected as u64, " frames selected. Batch actions will apply across that range.")
        }
    }

    /// The size the export preview is rendered at: the output size when
    /// both sides are set and positive.
    pub fn export_preview_target(&self) -> (r: Option<ResizeTarget>)
        ensures
            r == match (self.export_profile.output_width, self.export_profile.output_height) {
                (Some(w), Some(h)) => if w > 0 && h > 0 {
                    Some(ResizeTarget { width: w, height: h })
                } else {
                    None
                },
                _ => None,
            },
    {
        match (self.export_profile.output_width, self.export_profile.output_height) {
            (Some(w), Some(h)) => if w > 0 && h > 0 {
                Some(ResizeTarget { width: w, height: h })
            } else {
                None
            },
            _ => None,
        }
    }

    pub fn export_dimensions_text(&self) -> (s: String)
        ensures
            s@ == export_dimensions(self.export_profile, self.timeline@),
    {
        match (self.export_profile.output_width, self.export_profile.output_height) {
            (Some(w), Some(h)) => {
                if w > 0 && h > 0 {
                    return size_string(w, h);
                }
            },
            _ => {},
        }
        let frames = self.timeline.frames();
        assert(frames@.skip(0) =~= frames@);
        assert(export_dimensions(self.export_profile, self.timeline@) == match first_known_size(frames@) {
            Some((w, h)) => size_text(w, h),
            None => "Original size"@,
        });
        let mut i: usize = 0;
        while i < frames.len()
            invariant
                i <= frames@.len(),
                frames@ == self.timeline@,
                export_dimensions(self.export_profile, self.timeline@) == match first_known_size(frames@) {
                    Some((w, h)) => size_text(w, h),
                    None => "Original size"@,
                },
                first_known_size(frames@) == first_known_size(frames@.skip(i as int)),
            decreases frames@.len() - i,
        {
            assert(frames@.skip(i as int)[0] == frames@[i as int]);
            assert(frames@.skip(i as int).drop_first() =~= frames@.skip(i + 1));
            match frames[i].source_dimensions {
                Some((w, h)) => {
                    return size_string(w, h);
                },
                None => {},
            }
            i += 1;
        }
        text_of("Original size")
    }

    pub fn crop_summary_text(&self) -> (s: String)
        ensures
            s@ == crop_summary(self.timeline@, self.selection@, self.crop_preset, self.crop_anchor),
    {
        let intro = "Choose a crop shape, then apply it to the selected frames.";
        if self.selection.is_empty() {
            return text_of(intro);
        }
        let frame = match self.primary_selected_frame() {
            Some(f) => f,
            None => {
                return text_of(intro);
            },
        };
        let crop = match crop_rect_for_frame(&frame, self.crop_preset, self.crop_anchor) {
            Some(c) => c,
            None => {
                return text_of("Crop will be ready once the selected frame dimensions are known.");
            },
        };
        let mut s = String::new();
        match frame.transform_spec.crop {
            Some(e) => {
                push_str(&mut s, "Current crop: ");
                let d = size_string(e.width, e.height);
                push_str(&mut s, d.as_str());
                push_str(&mut s, ". ");
            },
            None => {},
        }
        push_str(&mut s, self.crop_preset.title());
        push_str(&mut s, " preset. ");
        push_str(&mut s, self.crop_preset.helper_text());
        push_str(&mut s, " ");
        push_str(&mut s, self.crop_anchor.helper_text());
        push_str(&mut s, ". Primary frame preview crop: ");
        let d = size_string(crop.width, crop.height);
        push_str(&mut s, d.as_str());
        push_str(&mut s, " at ");
        push_decimal(&mut s, crop.x as u64);
        push_str(&mut s, ",");
        push_decimal(&mut s, crop.y as u64);
        push_str(&mut s, ".");
        s
    }

    pub fn preview_meta_text(&self, advanced: bool) -> (s: String)
        ensures
            s@ == preview_meta(primary_frame(self.timeline@, self.selection@), advanced),
    {
        let frame = match self.primary_selected_frame() {
            Some(f) => f,
            None => {
                return text_of("Select a frame to inspect it.");
            },
        };
        let mut s = frame.file_name();
        push_str(&mut s, "\n");
        let dims = dims_string(&frame);
        push_str(&mut s, dims.as_str());
        let tail = if advanced {
            advanced_tail_string(&frame)
        } else {
            basic_tail_string(&frame)
        };
        push_str(&mut s, tail.as_str());
        s
    }
}

/// The sum of the frames' durations.
pub open spec fn frames_duration(s: Seq<FrameItem>) -> nat {
    crate::timeline::total_duration(s)
}

/// `a * b`, or the largest `u64` when that does not fit.
pub open spec fn saturating_product(a: nat, b: nat) -> u64 {
    if a * b <= u64::MAX {
        (a * b) as u64
    } else {
        u64::MAX
    }
}

fn saturating_mul(a: u64, b: u64) -> (r: u64)
    ensures
        r == saturating_product(a as nat, b as nat),
{
    match a.checked_mul(b) {
        Some(p) => p,
        None => u64::MAX,
    }
}

/// What the loop panel says about its source.
pub open spec fn loop_source_label(scope: LoopScope, selection_empty: bool) -> Seq<char> {
    match scope {
        LoopScope::Selected => if selection_empty {
            "No range selected yet"@
        } else {
            "Using the selected timeline range"@
        },
        LoopScope::AllFrames => "Using all images in the timeline"@,
    }
}

/// The text under the loop preview.
pub open spec fn loop_preview_meta(e: Editor, advanced: bool) -> Seq<char> {
    if e.selection@.is_empty() && e.loop_scope == LoopScope::Selected {
        "Select a range in the timeline to preview how the loop will feel."@
    } else {
        preview_meta(primary_frame(e.timeline@, e.selection@), advanced) + "\n"@ + e.loop_method.helper()
    }
}

/// The text under the export preview.
pub open spec fn export_preview_meta(e: Editor, advanced: bool, preview_ready: bool) -> Seq<char> {
    preview_meta(primary_frame(e.timeline@, e.selection@), advanced) + "\nExport size: "@ + export_dimensions(
        e.export_profile,
        e.timeline@,
    ) + " • fit "@ + e.export_profile.fit_mode.label() + "\n"@ + (if preview_ready {
        "Preview reflects the current export sizing."@
    } else {
        "Click Preview Export to render with the current export sizing."@
    }) + "\nOutput: "@ + match e.last_output_path {
        Some(p) => p@,
        None => "Choose an output file to finish exporting."@,
    }
}

impl Editor {
    pub fn loop_source_label_text(&self) -> (s: &'static str)
        ensures
            s@ == loop_source_label(self.loop_scope, self.selection@.is_empty()),
    {
        match self.loop_scope {
            LoopScope::Selected => if self.selection.is_empty() {
                "No range selected yet"
            } else {
                "Using the selected timeline range"
            },
            LoopScope::AllFrames => "Using all images in the timeline",
        }
    }

    /// The loop estimate: frames and milliseconds per round, then frames
    /// and milliseconds added by all rounds (saturating).
    pub fn loop_estimate(&self) -> (r: (u64, u64, u64, u64))
        ensures
            ({
                let src = loop_frames(self.timeline@, self.selection@, self.loop_scope, self.loop_method);
                &&& r.0 == src.len()
                &&& r.1 == saturating_product(frames_duration(src), 1)
                &&& r.2 == saturating_product(src.len(), self.loop_repeats as nat)
                &&& r.3 == saturating_product(
                    saturating_product(frames_duration(src), 1) as nat,
                    self.loop_repeats as nat,
                )
            }),
    {
        let source = self.current_loop_source();
        let ghost src = source@;
        let mut total: u64 = 0;
        let mut i: usize = 0;
        while i < source.len()
            invariant
                i <= src.len(),
                source@ == src,
                total == saturating_product(frames_duration(src.take(i as int)), 1),
            decreases src.len() - i,
        {
            proof {
                assert(src.take(i + 1).drop_last() =~= src.take(i as int));
                crate::timeline::lemma_total_duration_prefix(src.take(i + 1), i as int);
            }
            total = total.saturating_add(source[i].duration_ms as u64);
            i += 1;
        }
        assert(src.take(src.len() as int) =~= src);
        let n = source.len() as u64;
        (n, total, saturating_mul(n, self.loop_repeats as u64), saturating_mul(total, self.loop_repeats as u64))
    }

    pub fn loop_preview_meta_text(&self, advanced: bool) -> (s: String)
        ensures
            s@ == loop_preview_meta(*self, advanced),
    {
        if self.selection.is_empty() && self.loop_scope == LoopScope::Selected {
            return text_of("Select a range in the timeline to preview how the loop will feel.");
        }
        let mut s = self.preview_meta_text(advanced);
        push_str(&mut s, "\n");
        push_str(&mut s, self.loop_method.helper_text());
        s
    }

    pub fn export_preview_meta_text(&self, advanced: bool, preview_ready: bool) -> (s: String)
        ensures
            s@ == export_preview_meta(*self, advanced, preview_ready),
    {
        let mut s = self.preview_meta_text(advanced);
        push_str(&mut s, "\nExport size: ");
        let dims = self.export_dimensions_text();
        push_str(&mut s, dims.as_str());
        push_str(&mut s, " • fit ");
        push_str(&mut s, self.export_profile.fit_mode.as_str());
        push_str(&mut s, "\n");
        if preview_ready {
            push_str(&mut s, "Preview reflects the current export sizing.");
        } else {
            push_str(&mut s, "Click Preview Export to render with the current export sizing.");
        }
        push_str(&mut s, "\nOutput: ");
        match &self.last_output_path {
            Some(p) => push_str(&mut s, p.as_str()),
            None => push_str(&mut s, "Choose an output file to finish exporting."),
        }
        s
    }
}

// ---------------------------------------------------------------- coherence

/// Edits that keep every id keep a coherent selection coherent.
proof fn lemma_still_coherent(before: Editor, after: Editor)
    requires
        before.coherent(),
        after.timeline.wf(),
        ids_preserved(before.timeline@, after.timeline@),
        after.selection@ == before.selection@,
        after.anchor_id == before.anchor_id,
    ensures
        after.coherent(),
{
}

/// Selecting the new frames, anchored at the first, is coherent when they
/// are all in the timeline.
proof fn lemma_fresh_coherent(after: Editor, first: u64, n: nat)
    requires
        after.timeline.wf(),
        fresh_present(after.timeline@, first, n),
        after.selection@ == fresh_ids(first, n).to_set(),
        after.anchor_id == first_of(fresh_ids(first, n)),
    ensures
        after.coherent(),
{
    assert forall|x: u64| #[trigger] after.selection@.contains(x) implies has_id(after.timeline@, x) by {
        let i = choose|i: int| 0 <= i < fresh_ids(first, n).len() && fresh_ids(first, n)[i] == x;
        assert(has_id(after.timeline@, fresh_ids(first, n)[i]));
    }
    if n > 0 {
        assert(has_id(after.timeline@, fresh_ids(first, n)[0]));
    }
}

/// Showing one frame of the timeline alone is coherent.
proof fn lemma_single_coherent(after: Editor, id: u64)
    requires
        after.timeline.wf(),
        listed(after.ids(), id),
        after.selection@ == set![id],
        after.anchor_id == Some(id),
    ensures
        after.coherent(),
{
    lemma_listed_has_id(after.timeline@, id);
}

/// Setting durations keeps every id.
proof fn lemma_with_duration_ids(s: Seq<FrameItem>, sel: Set<u64>, d: u32)
    ensures
        ids_preserved(s, with_duration(s, sel, d)),
{
    let t = with_duration(s, sel, d);
    assert forall|x: u64| has_id(s, x) implies #[trigger] has_id(t, x) by {
        let j = choose|j: int| 0 <= j < s.len() && #[trigger] s[j].id == x;
        assert(t[j].id == x);
    }
}

/// Changing frames without touching their ids keeps every id.
proof fn lemma_same_ids(s: Seq<FrameItem>, t: Seq<FrameItem>)
    requires
        t.len() == s.len(),
        forall|j: int| 0 <= j < s.len() ==> #[trigger] t[j].id == s[j].id,
    ensures
        ids_preserved(s, t),
{
    assert forall|x: u64| has_id(s, x) implies #[trigger] has_id(t, x) by {
        let j = choose|j: int| 0 <= j < s.len() && #[trigger] s[j].id == x;
        assert(t[j].id == x);
    }
}

} // verus!
