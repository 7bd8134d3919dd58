//! The editor's own rules: navigation through the timeline, playback order,
//! preview sizing and reuse, quick crops, and the labels of its choices.
use crate::text::same_text;
use crate::types::{CropRect, EncoderPreset, ExportProfile, FitMode, FrameItem, ResizeTarget};
use vstd::prelude::*;

verus! {

/// Where newly imported images go.
#[derive(Debug, Clone, Copy, PartialEq, Eq, Structural)]
pub enum ImportMode {
    Append,
    Prepend,
    Replace,
}

/// The pages of the editor.
#[derive(Debug, Clone, Copy, PartialEq, Eq, Structural)]
pub enum WorkflowTab {
    Edit,
    Loop,
    Export,
    Diagnostics,
}

impl WorkflowTab {
    pub open spec fn name(self) -> Seq<char> {
        match self {
            WorkflowTab::Edit => "edit"@,
            WorkflowTab::Loop => "loop"@,
            WorkflowTab::Export => "export"@,
            WorkflowTab::Diagnostics => "diagnostics"@,
        }
    }

    /// The name of the tab's page in the page stack.
    pub fn stack_name(self) -> (s: &'static str)
        ensures
            s@ == self.name(),
    {
        match self {
            WorkflowTab::Edit => "edit",
            WorkflowTab::Loop => "loop",
            WorkflowTab::Export => "export",
            WorkflowTab::Diagnostics => "diagnostics",
        }
    }
}

/// How a loop is built from its source frames.
#[derive(Debug, Clone, Copy, PartialEq, Eq, Structural)]
pub enum LoopMethod {
    Duplicate,
    Reverse,
    PingPong,
}

impl LoopMethod {
    pub open spec fn title_text(self) -> Seq<char> {
        match self {
            LoopMethod::Duplicate => "Duplicate"@,
            LoopMethod::Reverse => "Reverse"@,
            LoopMethod::PingPong => "Ping-Pong"@,
        }
    }

    pub open spec fn helper(self) -> Seq<char> {
        match self {
            LoopMethod::Duplicate => "Repeat the sequence from start to finish."@,
            LoopMethod::Reverse => "Play forward, then backward to the start."@,
            LoopMethod::PingPong => "Play forward, then backward without repeating the endpoints."@,
        }
    }

    pub fn title(self) -> (s: &'static str)
        ensures
            s@ == self.title_text(),
    {
        match self {
            LoopMethod::Duplicate => "Duplicate",
            LoopMethod::Reverse => "Reverse",
            LoopMethod::PingPong => "Ping-Pong",
        }
    }

    pub fn helper_text(self) -> (s: &'static str)
        ensures
            s@ == self.helper(),
    {
        match self {
            LoopMethod::Duplicate => "Repeat the sequence from start to finish.",
            LoopMethod::Reverse => "Play forward, then backward to the start.",
            LoopMethod::PingPong => "Play forward, then backward without repeating the endpoints.",
        }
    }
}

/// Which frames a loop is built from.
#[derive(Debug, Clone, Copy, PartialEq, Eq, Structural)]
pub enum LoopScope {
    Selected,
    AllFrames,
}

/// The output size choices.
#[derive(Debug, Clone, Copy, PartialEq, Eq, Structural)]
pub enum DimensionPreset {
    Original,
    Hd1080,
    Hd720,
    Custom,
}

impl DimensionPreset {
    pub open spec fn label(self) -> Seq<char> {
        match self {
            DimensionPreset::Original => "Original"@,
            DimensionPreset::Hd1080 => "1080p"@,
            DimensionPreset::Hd720 => "720p"@,
            DimensionPreset::Custom => "Custom"@,
        }
    }

    pub fn as_str(self) -> (s: &'static str)
        ensures
            s@ == self.label(),
    {
        match self {
            DimensionPreset::Original => "Original",
            DimensionPreset::Hd1080 => "1080p",
            DimensionPreset::Hd720 => "720p",
            DimensionPreset::Custom => "Custom",
        }
    }
}

/// The aspect ratios of the quick crop.
#[derive(Debug, Clone, Copy, PartialEq, Eq, Structural)]
pub enum CropPreset {
    Square,
    Landscape16x9,
    Portrait9x16,
}

impl CropPreset {
    pub open spec fn title_text(self) -> Seq<char> {
        match self {
            CropPreset::Square => "Square"@,
            CropPreset::Landscape16x9 => "Widescreen"@,
            CropPreset::Portrait9x16 => "Story"@,
        }
    }

    pub open spec fn helper(self) -> Seq<char> {
        match self {
            CropPreset::Square => "1:1 crop for avatars, thumbnails, and grids."@,
            CropPreset::Landscape16x9 => "16:9 crop for video-like framing and banners."@,
            CropPreset::Portrait9x16 => "9:16 crop for stories, reels, and vertical posts."@,
        }
    }

    pub fn title(self) -> (s: &'static str)
        ensures
            s@ == self.title_text(),
    {
        match self {
            CropPreset::Square => "Square",
            CropPreset::Landscape16x9 => "Widescreen",
            CropPreset::Portrait9x16 => "Story",
        }
    }

    pub fn helper_text(self) -> (s: &'static str)
        ensures
            s@ == self.helper(),
    {
        match self {
            CropPreset::Square => "1:1 crop for avatars, thumbnails, and grids.",
            CropPreset::Landscape16x9 => "16:9 crop for video-like framing and banners.",
            CropPreset::Portrait9x16 => "9:16 crop for stories, reels, and vertical posts.",
        }
    }
}

/// Where the quick crop sits inside the available area.
#[derive(Debug, Clone, Copy, PartialEq, Eq, Structural)]
pub enum CropAnchor {
    Start,
    Center,
    End,
}

impl CropAnchor {
    pub open spec fn helper(self) -> Seq<char> {
        match self {
            CropAnchor::Start => "Bias the crop toward the top or left edge."@,
            CropAnchor::Center => "Balance the crop around the middle."@,
            CropAnchor::End => "Bias the crop toward the bottom or right edge."@,
        }
    }

    pub fn helper_text(self) -> (s: &'static str)
        ensures
            s@ == self.helper(),
    {
        match self {
            CropAnchor::Start => "Bias the crop toward the top or left edge.",
            CropAnchor::Center => "Balance the crop around the middle.",
            CropAnchor::End => "Bias the crop toward the bottom or right edge.",
        }
    }
}

/// The window layout.
#[derive(Debug, Clone, Copy, PartialEq, Eq, Structural)]
pub enum LayoutMode {
    Regular,
    Compact,
}

/// The compact layout applies to windows narrower than 1180 pixels.
pub fn layout_mode_for_width(width: i32) -> (m: LayoutMode)
    ensures
        m == (if 0 < width && width < 1180 {
            LayoutMode::Compact
        } else {
            LayoutMode::Regular
        }),
{
    if width > 0 && width < 1180 {
        LayoutMode::Compact
    } else {
        LayoutMode::Regular
    }
}

/// The values of the edit inspector.
#[derive(Debug, Clone, Copy, PartialEq, Eq, Structural)]
pub struct InspectorValues {
    pub flip_horizontal: bool,
    pub flip_vertical: bool,
    pub crop: Option<CropRect>,
    pub resize: Option<ResizeTarget>,
    pub fit_mode: FitMode,
}

/// The crop from the inspector's fields: none when width and height are
/// both zero.
pub fn crop_from_values(x: u32, y: u32, width: u32, height: u32) -> (c: Option<CropRect>)
    ensures
        c == (if width == 0 && height == 0 {
            None
        } else {
            Some(CropRect { x, y, width, height })
        }),
{
    if width == 0 && height == 0 {
        None
    } else {
        Some(CropRect { x, y, width, height })
    }
}

/// The resize from the inspector's fields: present only when both sides
/// are positive.
pub fn resize_from_values(width: u32, height: u32) -> (r: Option<ResizeTarget>)
    ensures
        r == (if width > 0 && height > 0 {
            Some(ResizeTarget { width, height })
        } else {
            None
        }),
{
    if width > 0 && height > 0 {
        Some(ResizeTarget { width, height })
    } else {
        None
    }
}

/// The size preset that matches the export profile's output size.
pub fn export_dimension_preset(profile: &ExportProfile) -> (p: DimensionPreset)
    ensures
        p == match (profile.output_width, profile.output_height) {
            (None, None) => DimensionPreset::Original,
            (Some(w), Some(h)) if w == 1920 && h == 1080 => DimensionPreset::Hd1080,
            (Some(w), Some(h)) if w == 1280 && h == 720 => DimensionPreset::Hd720,
            _ => DimensionPreset::Custom,
        },
{
    match (profile.output_width, profile.output_height) {
        (None, None) => DimensionPreset::Original,
        (Some(w), Some(h)) => {
            if w == 1920 && h == 1080 {
                DimensionPreset::Hd1080
            } else if w == 1280 && h == 720 {
                DimensionPreset::Hd720
            } else {
                DimensionPreset::Custom
            }
        },
        _ => DimensionPreset::Custom,
    }
}

/// The size preset that matches a frame's resize.
pub fn resize_dimension_preset(resize: Option<ResizeTarget>) -> (p: DimensionPreset)
    ensures
        p == match resize {
            None => DimensionPreset::Original,
            Some(r) => if r.width == 1920 && r.height == 1080 {
                DimensionPreset::Hd1080
            } else if r.width == 1280 && r.height == 720 {
                DimensionPreset::Hd720
            } else {
                DimensionPreset::Custom
            },
        },
{
    match resize {
        None => DimensionPreset::Original,
        Some(r) => {
            if r.width == 1920 && r.height == 1080 {
                DimensionPreset::Hd1080
            } else if r.width == 1280 && r.height == 720 {
                DimensionPreset::Hd720
            } else {
                DimensionPreset::Custom
            }
        },
    }
}

/// Sets the export size for a size preset; a custom size keeps the sides
/// already given and fills a missing one from 1280 x 720. Returns whether
/// the advanced controls should be shown (for a custom size).
pub fn apply_export_size_preset(profile: &mut ExportProfile, preset: DimensionPreset) -> (advanced: bool)
    ensures
        advanced == (preset == DimensionPreset::Custom),
        final(profile).output_width == match preset {
            DimensionPreset::Original => None,
            DimensionPreset::Hd1080 => Some(1920u32),
            DimensionPreset::Hd720 => Some(1280u32),
            DimensionPreset::Custom => match old(profile).output_width {
                Some(w) => Some(w),
                None => Some(1280u32),
            },
        },
        final(profile).output_height == match preset {
            DimensionPreset::Original => None,
            DimensionPreset::Hd1080 => Some(1080u32),
            DimensionPreset::Hd720 => Some(720u32),
            DimensionPreset::Custom => match old(profile).output_height {
                Some(h) => Some(h),
                None => Some(720u32),
            },
        },
        *final(profile) == (ExportProfile {
            output_width: final(profile).output_width,
            output_height: final(profile).output_height,
            ..*old(profile)
        }),
{
    match preset {
        DimensionPreset::Original => {
            profile.output_width = None;
            profile.output_height = None;
            false
        },
        DimensionPreset::Hd1080 => {
            profile.output_width = Some(1920);
            profile.output_height = Some(1080);
            false
        },
        DimensionPreset::Hd720 => {
            profile.output_width = Some(1280);
            profile.output_height = Some(720);
            false
        },
        DimensionPreset::Custom => {
            if profile.output_width.is_none() {
                profile.output_width = Some(1280);
            }
            if profile.output_height.is_none() {
                profile.output_height = Some(720);
            }
            true
        },
    }
}

// ---------------------------------------------------------------- preview

/// A preview size in device pixels.
#[derive(Debug, Clone, Copy, PartialEq, Eq, Structural)]
pub struct PreviewRenderSize {
    pub width: u32,
    pub height: u32,
}

impl PreviewRenderSize {
    /// Whether a preview of this size is at least as large as `other` on
    /// both sides.
    pub fn covers(self, other: Self) -> (b: bool)
        ensures
            b == (self.width >= other.width && self.height >= other.height),
    {
        self.width >= other.width && self.height >= other.height
    }
}

/// The logical preview size used before the widget has been laid out.
pub open spec fn default_logical_width() -> int {
    720
}

pub open spec fn default_logical_height() -> int {
    360
}

/// The largest preview edge rendered, in device pixels.
pub open spec fn max_preview_edge() -> int {
    4096
}

/// One side of the preview render size: the allocated or requested logical
/// size (the default when neither is positive), times the scale factor
/// (at least 1), kept within 1 and the largest edge.
pub open spec fn render_side(allocated: i32, requested: i32, fallback: int, scale: i32) -> u32 {
    let req = if requested > 0 {
        requested as int
    } else {
        0
    };
    let logical = if allocated as int > req {
        allocated as int
    } else {
        req
    };
    let logical = if logical > 0 {
        logical
    } else {
        fallback
    };
    let s = if scale > 1 {
        scale as int
    } else {
        1
    };
    let scaled = logical * s;
    if scaled > max_preview_edge() {
        max_preview_edge() as u32
    } else {
        scaled as u32
    }
}

fn render_side_value(allocated: i32, requested: i32, fallback: i32, scale: i32) -> (v: u32)
    requires
        fallback == 720 || fallback == 360,
    ensures
        v == render_side(allocated, requested, fallback as int, scale),
{
    let req: i32 = if requested > 0 {
        requested
    } else {
        0
    };
    let logical: i32 = if allocated > req {
        allocated
    } else {
        req
    };
    let logical: i32 = if logical > 0 {
        logical
    } else {
        fallback
    };
    let s: i32 = if scale > 1 {
        scale
    } else {
        1
    };
    let l = logical as u64;
    let m = s as u64;
    if l >= 4096 || m >= 4096 {
        proof {
            assert(l * m >= 4096) by (nonlinear_arith)
                requires
                    l >= 1,
                    m >= 1,
                    l >= 4096 || m >= 4096,
            ;
        }
        return 4096;
    }
    proof {
        assert(l * m < 4096 * 4096) by (nonlinear_arith)
            requires
                l < 4096,
                m < 4096,
        ;
    }
    let scaled = l * m;
    if scaled > 4096 {
        4096
    } else {
        scaled as u32
    }
}

/// The size to render previews at for a widget with the given allocation,
/// size request and scale factor.
pub fn preview_render_size_from_values(
    width: i32,
    height: i32,
    width_request: i32,
    height_request: i32,
    scale_factor: i32,
) -> (r: PreviewRenderSize)
    ensures
        r.width == render_side(width, width_request, default_logical_width(), scale_factor),
        r.height == render_side(height, height_request, default_logical_height(), scale_factor),
{
    PreviewRenderSize {
        width: render_side_value(width, width_request, 720, scale_factor),
        height: render_side_value(height, height_request, 360, scale_factor),
    }
}

/// A preview needs rendering when there is none yet or the one there does
/// not cover the target size.
pub fn should_refresh_preview(rendered_size: Option<PreviewRenderSize>, target_size: PreviewRenderSize) -> (b: bool)
    ensures
        b == match rendered_size {
            None => true,
            Some(r) => !(r.width >= target_size.width && r.height >= target_size.height),
        },
{
    match rendered_size {
        None => true,
        Some(r) => !r.covers(target_size),
    }
}

/// A rendered preview is shown only if its frame is still the current one.
pub fn preview_result_is_usable(current_frame_id: Option<u64>, frame_id: u64) -> (b: bool)
    ensures
        b == (current_frame_id == Some(frame_id)),
{
    match current_frame_id {
        Some(c) => c == frame_id,
        None => false,
    }
}

/// The path shown at once for a frame while its preview renders: a cached
/// render, else the preview already on screen, else the source image.
pub fn immediate_preview_path(
    frame: &FrameItem,
    cached_preview_path: Option<String>,
    current_preview_path: Option<&String>,
    playback_active: bool,
) -> (p: String)
    ensures
        p@ == match cached_preview_path {
            Some(c) => c@,
            None => match current_preview_path {
                Some(c) => c@,
                None => frame.source_path@,
            },
        },
{
    match cached_preview_path {
        Some(c) => c,
        None => match current_preview_path {
            Some(c) => c.clone(),
            None => frame.source_path.clone(),
        },
    }
}

/// Whether two paths name the same path, as `Path`'s equality decides
/// (component by component).
pub uninterp spec fn same_path(a: Seq<char>, b: Seq<char>) -> bool;

/// Compares two paths with `std::path::Path`'s `==`. The result is claimed
/// to be `same_path` of the two; nothing more is stated of it.
#[verifier::external_body]
fn std_path_eq(a: &str, b: &str) -> (r: bool)
    ensures
        r == same_path(a@, b@),
{
    std::path::Path::new(a) == std::path::Path::new(b)
}

/// Whether `path` is only a stand-in for a frame's preview: its source
/// image or its thumbnail.
pub fn preview_path_is_proxy(frame: &FrameItem, path: &str) -> (b: bool)
    ensures
        b == (same_path(path@, frame.source_path@) || match frame.thumbnail_path {
            Some(t) => same_path(path@, t@),
            None => false,
        }),
{
    if std_path_eq(path, frame.source_path.as_str()) {
        return true;
    }
    match &frame.thumbnail_path {
        Some(t) => std_path_eq(path, t.as_str()),
        None => false,
    }
}

// ---------------------------------------------------------------- navigation

/// The position of the first occurrence of `id` in `ids`.
pub open spec fn position(ids: Seq<u64>, id: Option<u64>) -> Option<int> {
    match id {
        Some(x) => ids.index_of_first(x),
        None => None,
    }
}

fn find_position(ids: &[u64], id: Option<u64>) -> (r: Option<usize>)
    ensures
        match r {
            Some(i) => position(ids@, id) == Some(i as int) && i < ids@.len(),
            None => position(ids@, id) is None,
        },
{
    let x = match id {
        Some(x) => x,
        None => {
            return None;
        },
    };
    let mut i: usize = 0;
    while i < ids.len()
        invariant
            i <= ids@.len(),
            id == Some(x),
            forall|k: int| 0 <= k < i ==> ids@[k] != x,
        decreases ids@.len() - i,
    {
        if ids[i] == x {
            proof {
                ids@.index_of_first_ensures(x);
            }
            return Some(i);
        }
        i += 1;
    }
    proof {
        ids@.index_of_first_ensures(x);
    }
    None
}

/// The frame `offset` steps from the current one (from the first when
/// there is no current frame), stopping at either end of the timeline.
pub open spec fn stepped(ids: Seq<u64>, current: Option<u64>, offset: int) -> Option<u64> {
    if ids.len() == 0 {
        None
    } else {
        let c = match position(ids, current) {
            Some(i) => i,
            None => 0,
        };
        let t = c + offset;
        let t = if t < 0 {
            0
        } else if t > ids.len() - 1 {
            ids.len() - 1
        } else {
            t
        };
        Some(ids[t])
    }
}

pub fn step_frame_id(frame_ids: &[u64], current: Option<u64>, offset: isize) -> (r: Option<u64>)
    ensures
        r == stepped(frame_ids@, current, offset as int),
{
    if frame_ids.len() == 0 {
        return None;
    }
    let c = match find_position(frame_ids, current) {
        Some(i) => i,
        None => 0,
    };
    let last = (frame_ids.len() - 1) as i128;
    let t: i128 = (c as i128) + (offset as i128);
    let target: i128 = if t < 0 {
        0
    } else if t > last {
        last
    } else {
        t
    };
    Some(frame_ids[target as usize])
}

/// Playback starts at the current frame unless it is the last one (or
/// there is none), in which case it starts from the first.
pub open spec fn playback_start(ids: Seq<u64>, current: Option<u64>) -> Option<u64> {
    if ids.len() == 0 {
        None
    } else {
        match position(ids, current) {
            Some(i) if i + 1 < ids.len() => Some(ids[i]),
            _ => Some(ids[0]),
        }
    }
}

pub fn playback_start_frame_id(frame_ids: &[u64], current: Option<u64>) -> (r: Option<u64>)
    ensures
        r == playback_start(frame_ids@, current),
{
    if frame_ids.len() == 0 {
        return None;
    }
    match find_position(frame_ids, current) {
        Some(i) => {
            if i < frame_ids.len() - 1 {
                Some(frame_ids[i])
            } else {
                Some(frame_ids[0])
            }
        },
        None => Some(frame_ids[0]),
    }
}

/// The frame after the current one, if any.
pub open spec fn following(ids: Seq<u64>, current: Option<u64>) -> Option<u64> {
    match position(ids, current) {
        Some(i) if i + 1 < ids.len() => Some(ids[i + 1]),
        _ => None,
    }
}

pub fn following_frame_id(frame_ids: &[u64], current: Option<u64>) -> (r: Option<u64>)
    ensures
        r == following(frame_ids@, current),
{
    match find_position(frame_ids, current) {
        Some(i) => {
            if i < frame_ids.len() - 1 {
                Some(frame_ids[i + 1])
            } else {
                None
            }
        },
        None => None,
    }
}

// ---------------------------------------------------------------- quick crop

pub open spec fn ratio(p: CropPreset) -> (u32, u32) {
    match p {
        CropPreset::Square => (1, 1),
        CropPreset::Landscape16x9 => (16, 9),
        CropPreset::Portrait9x16 => (9, 16),
    }
}

pub fn crop_preset_ratio(preset: CropPreset) -> (r: (u32, u32))
    ensures
        r == ratio(preset),
{
    match preset {
        CropPreset::Square => (1, 1),
        CropPreset::Landscape16x9 => (16, 9),
        CropPreset::Portrait9x16 => (9, 16),
    }
}

/// The size of a frame after an odd number of quarter turns is the source
/// size with its sides exchanged.
pub open spec fn rotated(d: (u32, u32), turns: i32) -> (u32, u32) {
    if (turns as int) % 2 == 1 {
        (d.1, d.0)
    } else {
        d
    }
}

pub fn rotated_dimensions(dimensions: (u32, u32), turns: i32) -> (r: (u32, u32))
    ensures
        r == rotated(dimensions, turns),
{
    if turns % 2 != 0 {
        (dimensions.1, dimensions.0)
    } else {
        dimensions
    }
}

pub open spec fn anchor_offset(available: u32, anchor: CropAnchor) -> u32 {
    match anchor {
        CropAnchor::Start => 0,
        CropAnchor::Center => available / 2,
        CropAnchor::End => available,
    }
}

pub fn crop_anchor_offset(available: u32, anchor: CropAnchor) -> (r: u32)
    ensures
        r == anchor_offset(available, anchor),
{
    match anchor {
        CropAnchor::Start => 0,
        CropAnchor::Center => available / 2,
        CropAnchor::End => available,
    }
}

pub open spec fn at_least_one(v: u32) -> u32 {
    if v > 0 {
        v
    } else {
        1
    }
}

pub open spec fn sat_sub(a: u32, b: u32) -> u32 {
    if a >= b {
        (a - b) as u32
    } else {
        0
    }
}

pub open spec fn sat_add(a: u32, b: u32) -> u32 {
    if a + b <= u32::MAX {
        (a + b) as u32
    } else {
        u32::MAX
    }
}

/// The largest rectangle of the preset's aspect ratio inside the frame's
/// current crop (or the whole rotated frame), placed by the anchor. None
/// when the frame's size is unknown, or when the result is the whole
/// uncropped frame.
pub open spec fn quick_crop(frame: FrameItem, preset: CropPreset, anchor: CropAnchor) -> Option<CropRect> {
    match frame.source_dimensions {
        None => None,
        Some(d) => {
            let full = rotated(d, frame.transform_spec.rotate_quarter_turns);
            let base = match frame.transform_spec.crop {
                Some(c) => c,
                None => CropRect { x: 0, y: 0, width: full.0, height: full.1 },
            };
            let (rw, rh) = ratio(preset);
            let bw = at_least_one(base.width) as int;
            let bh = at_least_one(base.height) as int;
            let tw: u32 = if bw * rh >= bh * rw {
                at_least_one(((bh * rw) / (rh as int)) as u32)
            } else {
                at_least_one(base.width)
            };
            let th: u32 = if bw * rh >= bh * rw {
                at_least_one(base.height)
            } else {
                at_least_one(((bw * rh) / (rw as int)) as u32)
            };
            let crop = CropRect {
                x: sat_add(base.x, anchor_offset(sat_sub(base.width, tw), anchor)),
                y: sat_add(base.y, anchor_offset(sat_sub(base.height, th), anchor)),
                width: tw,
                height: th,
            };
            if frame.transform_spec.crop is None && crop.x == 0 && crop.y == 0 && crop.width == full.0
                && crop.height == full.1 {
                None
            } else {
                Some(crop)
            }
        },
    }
}

fn max_one(v: u32) -> (r: u32)
    ensures
        r == at_least_one(v),
{
    if v > 0 {
        v
    } else {
        1
    }
}

/// The quick crop for a frame.
pub fn crop_rect_for_frame(frame: &FrameItem, preset: CropPreset, anchor: CropAnchor) -> (r: Option<CropRect>)
    ensures
        r == quick_crop(*frame, preset, anchor),
{
    let d = match frame.source_dimensions {
        Some(d) => d,
        None => {
            return None;
        },
    };
    let (full_width, full_height) = rotated_dimensions(d, frame.transform_spec.rotate_quarter_turns);
    let base = match frame.transform_spec.crop {
        Some(c) => c,
        None => CropRect { x: 0, y: 0, width: full_width, height: full_height },
    };
    let (rw, rh) = crop_preset_ratio(preset);
    let bw = max_one(base.width) as u64;
    let bh = max_one(base.height) as u64;
    let rw64 = rw as u64;
    let rh64 = rh as u64;
    proof {
        assert(bw * rh64 <= 0xffff_ffff * 16) by (nonlinear_arith)
            requires
                bw <= 0xffff_ffff,
                rh64 <= 16,
        ;
        assert(bh * rw64 <= 0xffff_ffff * 16) by (nonlinear_arith)
            requires
                bh <= 0xffff_ffff,
                rw64 <= 16,
        ;
    }
    let (target_width, target_height) = if bw * rh64 >= bh * rw64 {
        proof {
            assert((bh * rw64) / (rh64 as int) <= bw) by (nonlinear_arith)
                requires
                    bw * rh64 >= bh * rw64,
                    rh64 >= 1,
            ;
        }
        let w = ((bh * rw64) / rh64) as u32;
        (max_one(w), max_one(base.height))
    } else {
        proof {
            assert((bw * rh64) / (rw64 as int) <= bh) by (nonlinear_arith)
                requires
                    bw * rh64 < bh * rw64,
                    rw64 >= 1,
            ;
        }
        let h = ((bw * rh64) / rw64) as u32;
        (max_one(base.width), max_one(h))
    };
    let max_x = base.width.saturating_sub(target_width);
    let max_y = base.height.saturating_sub(target_height);
    let offset_x = crop_anchor_offset(max_x, anchor);
    let offset_y = crop_anchor_offset(max_y, anchor);
    let crop = CropRect {
        x: base.x.saturating_add(offset_x),
        y: base.y.saturating_add(offset_y),
        width: target_width,
        height: target_height,
    };
    if frame.transform_spec.crop.is_none() && crop.x == 0 && crop.y == 0 && crop.width == full_width
        && crop.height == full_height {
        None
    } else {
        Some(crop)
    }
}

// ---------------------------------------------------------------- choices

/// The fit mode a choice label names; any other text means Contain.
pub fn fit_mode_for_label(label: &str) -> (m: FitMode)
    ensures
        m == if label@ == "Cover"@ {
            FitMode::Cover
        } else if label@ == "Stretch"@ {
            FitMode::Stretch
        } else {
            FitMode::Contain
        },
{
    if same_text(label, "Cover") {
        FitMode::Cover
    } else if same_text(label, "Stretch") {
        FitMode::Stretch
    } else {
        FitMode::Contain
    }
}

/// The size preset a choice label names; any other text means Original.
pub fn dimension_preset_for_label(label: &str) -> (p: DimensionPreset)
    ensures
        p == if label@ == "1080p"@ {
            DimensionPreset::Hd1080
        } else if label@ == "720p"@ {
            DimensionPreset::Hd720
        } else if label@ == "Custom"@ {
            DimensionPreset::Custom
        } else {
            DimensionPreset::Original
        },
{
    if same_text(label, "1080p") {
        DimensionPreset::Hd1080
    } else if same_text(label, "720p") {
        DimensionPreset::Hd720
    } else if same_text(label, "Custom") {
        DimensionPreset::Custom
    } else {
        DimensionPreset::Original
    }
}

/// The encoder preset a choice label names; any other text means Default.
pub fn encoder_preset_for_label(label: &str) -> (p: EncoderPreset)
    ensures
        p == if label@ == "Picture"@ {
            EncoderPreset::Picture
        } else if label@ == "Photo"@ {
            EncoderPreset::Photo
        } else if label@ == "Drawing"@ {
            EncoderPreset::Drawing
        } else if label@ == "Icon"@ {
            EncoderPreset::Icon
        } else if label@ == "Text"@ {
            EncoderPreset::Text
        } else {
            EncoderPreset::Default
        },
{
    if same_text(label, "Picture") {
        EncoderPreset::Picture
    } else if same_text(label, "Photo") {
        EncoderPreset::Photo
    } else if same_text(label, "Drawing") {
        EncoderPreset::Drawing
    } else if same_text(label, "Icon") {
        EncoderPreset::Icon
    } else if same_text(label, "Text") {
        EncoderPreset::Text
    } else {
        EncoderPreset::Default
    }
}

/// The position of a fit mode in its list of choices.
pub fn fit_mode_index(m: FitMode) -> (i: u32)
    ensures
        i == match m {
            FitMode::Contain => 0u32,
            FitMode::Cover => 1,
            FitMode::Stretch => 2,
        },
{
    match m {
        FitMode::Contain => 0,
        FitMode::Cover => 1,
        FitMode::Stretch => 2,
    }
}

/// The position of a size preset in its list of choices.
pub fn dimension_preset_index(p: DimensionPreset) -> (i: u32)
    ensures
        i == match p {
            DimensionPreset::Original => 0u32,
            DimensionPreset::Hd1080 => 1,
            DimensionPreset::Hd720 => 2,
            DimensionPreset::Custom => 3,
        },
{
    match p {
        DimensionPreset::Original => 0,
        DimensionPreset::Hd1080 => 1,
        DimensionPreset::Hd720 => 2,
        DimensionPreset::Custom => 3,
    }
}

/// The position of an encoder preset in its list of choices.
pub fn encoder_preset_index(p: EncoderPreset) -> (i: u32)
    ensures
        i == match p {
            EncoderPreset::Default => 0u32,
            EncoderPreset::Picture => 1,
            EncoderPreset::Photo => 2,
            EncoderPreset::Drawing => 3,
            EncoderPreset::Icon => 4,
            EncoderPreset::Text => 5,
        },
{
    match p {
        EncoderPreset::Default => 0,
        EncoderPreset::Picture => 1,
        EncoderPreset::Photo => 2,
        EncoderPreset::Drawing => 3,
        EncoderPreset::Icon => 4,
        EncoderPreset::Text => 5,
    }
}

// ---------------------------------------------------------------- laws

/// Stepping through a non-empty timeline always lands on one of its frames,
/// and a step of zero from a frame of the timeline stays on it.
pub proof fn law_step_stays_on_timeline(ids: Seq<u64>, current: Option<u64>, offset: int)
    requires
        ids.len() > 0,
    ensures
        stepped(ids, current, offset) matches Some(x) && ids.contains(x),
        (current matches Some(c) && ids.contains(c)) ==> stepped(ids, current, 0) == current,
{
    if let Some(c) = current {
        ids.index_of_first_ensures(c);
    }
    let p = position(ids, current);
    let ci = match p {
        Some(i) => i,
        None => 0,
    };
    let t0 = ci + offset;
    let t = if t0 < 0 {
        0
    } else if t0 > ids.len() - 1 {
        ids.len() - 1
    } else {
        t0
    };
    assert(ids[t] == stepped(ids, current, offset).unwrap());
}

/// Playback always starts on a frame of a non-empty timeline, and the
/// following frame, when there is one, is a frame of the timeline too.
pub proof fn law_playback_stays_on_timeline(ids: Seq<u64>, current: Option<u64>)
    ensures
        ids.len() > 0 ==> (playback_start(ids, current) matches Some(x) && ids.contains(x)),
        following(ids, current) matches Some(x) ==> ids.contains(x),
{
    if let Some(c) = current {
        ids.index_of_first_ensures(c);
    }
    if ids.len() > 0 {
        let x = playback_start(ids, current).unwrap();
        match position(ids, current) {
            Some(i) => {
                if i + 1 < ids.len() {
                    assert(ids[i] == x);
                } else {
                    assert(ids[0] == x);
                }
            },
            None => {
                assert(ids[0] == x);
            },
        }
    }
    if let Some(i) = position(ids, current) {
        if i + 1 < ids.len() {
            assert(ids[i + 1] == following(ids, current).unwrap());
        }
    }
}

/// A quick crop lies inside the rectangle it starts from (the frame's crop,
/// or the whole rotated frame), when that rectangle is not empty and does
/// not reach past the largest coordinate.
pub proof fn law_quick_crop_stays_inside(frame: FrameItem, preset: CropPreset, anchor: CropAnchor)
    requires
        frame.source_dimensions is Some,
        ({
            let full = rotated(frame.source_dimensions.unwrap(), frame.transform_spec.rotate_quarter_turns);
            let base = match frame.transform_spec.crop {
                Some(c) => c,
                None => CropRect { x: 0, y: 0, width: full.0, height: full.1 },
            };
            &&& base.width >= 1
            &&& base.height >= 1
            &&& base.x + base.width <= u32::MAX
            &&& base.y + base.height <= u32::MAX
        }),
    ensures
        quick_crop(frame, preset, anchor) matches Some(c) ==> {
            let full = rotated(frame.source_dimensions.unwrap(), frame.transform_spec.rotate_quarter_turns);
            let base = match frame.transform_spec.crop {
                Some(c) => c,
                None => CropRect { x: 0, y: 0, width: full.0, height: full.1 },
            };
            &&& c.width >= 1
            &&& c.height >= 1
            &&& base.x <= c.x
            &&& base.y <= c.y
            &&& c.x + c.width <= base.x + base.width
            &&& c.y + c.height <= base.y + base.height
        },
{
    let full = rotated(frame.source_dimensions.unwrap(), frame.transform_spec.rotate_quarter_turns);
    let base = match frame.transform_spec.crop {
        Some(c) => c,
        None => CropRect { x: 0, y: 0, width: full.0, height: full.1 },
    };
    let (rw, rh) = ratio(preset);
    let bw = base.width as int;
    let bh = base.height as int;
    assert(1 <= rw <= 16 && 1 <= rh <= 16);
    if bw * rh >= bh * rw {
        assert((bh * rw) / (rh as int) <= bw) by (nonlinear_arith)
            requires
                bw * rh >= bh * rw,
                rh >= 1,
                bh >= 0,
                rw >= 0,
        ;
        assert((bh * rw) / (rh as int) >= 0) by (nonlinear_arith)
            requires
                rh >= 1,
                bh >= 0,
                rw >= 0,
        ;
    } else {
        assert((bw * rh) / (rw as int) <= bh) by (nonlinear_arith)
            requires
                bw * rh < bh * rw,
                rw >= 1,
                bw >= 0,
                rh >= 0,
        ;
        assert((bw * rh) / (rw as int) >= 0) by (nonlinear_arith)
            requires
                rw >= 1,
                bw >= 0,
                rh >= 0,
        ;
    }
}

/// The icon and its colour class shown beside a section's title.
pub open spec fn section_icon(title: Seq<char>) -> (Seq<char>, Seq<char>) {
    if title == "Preview"@ {
        ("view-preview-symbolic"@, "icon-tone-cyan"@)
    } else if title == "Quick Actions"@ {
        ("preferences-desktop-keyboard-shortcuts-symbolic"@, "icon-tone-cyan"@)
    } else if title == "Guided Crop"@ {
        ("image-crop-symbolic"@, "icon-tone-coral"@)
    } else if title == "Adjustments"@ {
        ("applications-graphics-symbolic"@, "icon-tone-amber"@)
    } else if title == "Advanced Edit Controls"@ {
        ("preferences-system-symbolic"@, "icon-tone-amber"@)
    } else if title == "Source"@ {
        ("folder-pictures-symbolic"@, "icon-tone-cyan"@)
    } else if title == "Loop Controls"@ {
        ("media-playlist-repeat-symbolic"@, "icon-tone-green"@)
    } else if title == "Loop Summary"@ {
        ("view-list-details-symbolic"@, "icon-tone-green"@)
    } else if title == "Export Settings"@ {
        ("mail-send-symbolic"@, "icon-tone-green"@)
    } else if title == "Export Summary"@ {
        ("dialog-information-symbolic"@, "icon-tone-amber"@)
    } else if title == "Advanced Export Controls"@ {
        ("preferences-system-symbolic"@, "icon-tone-coral"@)
    } else if title == "Effective Command"@ {
        ("utilities-terminal-symbolic"@, "icon-tone-coral"@)
    } else if title == "Health"@ {
        ("heart-symbolic"@, "icon-tone-green"@)
    } else if title == "Details"@ {
        ("text-x-generic-symbolic"@, "icon-tone-cyan"@)
    } else {
        ("applications-system-symbolic"@, "icon-tone-cyan"@)
    }
}

/// The icon and its colour class for a section's header.
pub fn section_header_icon(title: &str) -> (r: (&'static str, &'static str))
    ensures
        (r.0@, r.1@) == section_icon(title@),
{
    if same_text(title, "Preview") {
        ("view-preview-symbolic", "icon-tone-cyan")
    } else if same_text(title, "Quick Actions") {
        ("preferences-desktop-keyboard-shortcuts-symbolic", "icon-tone-cyan")
    } else if same_text(title, "Guided Crop") {
        ("image-crop-symbolic", "icon-tone-coral")
    } else if same_text(title, "Adjustments") {
        ("applications-graphics-symbolic", "icon-tone-amber")
    } else if same_text(title, "Advanced Edit Controls") {
        ("preferences-system-symbolic", "icon-tone-amber")
    } else if same_text(title, "Source") {
        ("folder-pictures-symbolic", "icon-tone-cyan")
    } else if same_text(title, "Loop Controls") {
        ("media-playlist-repeat-symbolic", "icon-tone-green")
    } else if same_text(title, "Loop Summary") {
        ("view-list-details-symbolic", "icon-tone-green")
    } else if same_text(title, "Export Settings") {
        ("mail-send-symbolic", "icon-tone-green")
    } else if same_text(title, "Export Summary") {
        ("dialog-information-symbolic", "icon-tone-amber")
    } else if same_text(title, "Advanced Export Controls") {
        ("preferences-system-symbolic", "icon-tone-coral")
    } else if same_text(title, "Effective Command") {
        ("utilities-terminal-symbolic", "icon-tone-coral")
    } else if same_text(title, "Health") {
        ("heart-symbolic", "icon-tone-green")
    } else if same_text(title, "Details") {
        ("text-x-generic-symbolic", "icon-tone-cyan")
    } else {
        ("applications-system-symbolic", "icon-tone-cyan")
    }
}

} // verus!
