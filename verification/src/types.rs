//! The data model: frames, their per-frame transforms, and export settings.
use vstd::prelude::*;

verus! {

/// How a frame is fitted into a target size.
#[derive(Debug, Clone, Copy, PartialEq, Eq, Structural)]
pub enum FitMode {
    Contain,
    Cover,
    Stretch,
}

impl FitMode {
    pub open spec fn label(self) -> Seq<char> {
        match self {
            FitMode::Contain => "Contain"@,
            FitMode::Cover => "Cover"@,
            FitMode::Stretch => "Stretch"@,
        }
    }

    pub fn as_str(self) -> (s: &'static str)
        ensures
            s@ == self.label(),
    {
        match self {
            FitMode::Contain => "Contain",
            FitMode::Cover => "Cover",
            FitMode::Stretch => "Stretch",
        }
    }
}

impl Default for FitMode {
    fn default() -> (m: Self)
        ensures
            m == FitMode::Contain,
    {
        FitMode::Contain
    }
}

/// The libwebp encoder preset.
#[derive(Debug, Clone, Copy, PartialEq, Eq, Structural)]
pub enum EncoderPreset {
    Default,
    Picture,
    Photo,
    Drawing,
    Icon,
    Text,
}

impl EncoderPreset {
    pub open spec fn label(self) -> Seq<char> {
        match self {
            EncoderPreset::Default => "Default"@,
            EncoderPreset::Picture => "Picture"@,
            EncoderPreset::Photo => "Photo"@,
            EncoderPreset::Drawing => "Drawing"@,
            EncoderPreset::Icon => "Icon"@,
            EncoderPreset::Text => "Text"@,
        }
    }

    pub open spec fn ffmpeg_name(self) -> Seq<char> {
        match self {
            EncoderPreset::Default => "default"@,
            EncoderPreset::Picture => "picture"@,
            EncoderPreset::Photo => "photo"@,
            EncoderPreset::Drawing => "drawing"@,
            EncoderPreset::Icon => "icon"@,
            EncoderPreset::Text => "text"@,
        }
    }

    pub fn as_str(self) -> (s: &'static str)
        ensures
            s@ == self.label(),
    {
        match self {
            EncoderPreset::Default => "Default",
            EncoderPreset::Picture => "Picture",
            EncoderPreset::Photo => "Photo",
            EncoderPreset::Drawing => "Drawing",
            EncoderPreset::Icon => "Icon",
            EncoderPreset::Text => "Text",
        }
    }

    /// The value handed to ffmpeg's `-preset` option.
    pub fn ffmpeg_value(self) -> (s: &'static str)
        ensures
            s@ == self.ffmpeg_name(),
            s@ == crate::text::ascii_lower(self.label()),
    {
        proof {
            crate::export::law_preset_name_is_lowercase_label(self, self);
        }
        match self {
            EncoderPreset::Default => "default",
            EncoderPreset::Picture => "picture",
            EncoderPreset::Photo => "photo",
            EncoderPreset::Drawing => "drawing",
            EncoderPreset::Icon => "icon",
            EncoderPreset::Text => "text",
        }
    }
}

impl Default for EncoderPreset {
    fn default() -> (p: Self)
        ensures
            p == EncoderPreset::Default,
    {
        EncoderPreset::Default
    }
}

/// The container written by an export.
#[derive(Debug, Clone, Copy, PartialEq, Eq, Structural)]
pub enum ExportFormat {
    WebP,
    Mp4,
}

impl ExportFormat {
    pub open spec fn label(self) -> Seq<char> {
        match self {
            ExportFormat::WebP => "Animated WebP"@,
            ExportFormat::Mp4 => "MP4 Video"@,
        }
    }

    pub open spec fn extension_text(self) -> Seq<char> {
        match self {
            ExportFormat::WebP => "webp"@,
            ExportFormat::Mp4 => "mp4"@,
        }
    }

    pub fn as_str(self) -> (s: &'static str)
        ensures
            s@ == self.label(),
    {
        match self {
            ExportFormat::WebP => "Animated WebP",
            ExportFormat::Mp4 => "MP4 Video",
        }
    }

    /// The file extension (without the dot) of the format.
    pub fn extension(self) -> (s: &'static str)
        ensures
            s@ == self.extension_text(),
    {
        match self {
            ExportFormat::WebP => "webp",
            ExportFormat::Mp4 => "mp4",
        }
    }
}

impl Default for ExportFormat {
    fn default() -> (f: Self)
        ensures
            f == ExportFormat::WebP,
    {
        ExportFormat::WebP
    }
}

/// A named bundle of export settings.
#[derive(Debug, Clone, Copy, PartialEq, Eq, Structural)]
pub enum ExportPreset {
    FastPreview,
    Balanced,
    HighQuality,
    Lossless,
}

impl ExportPreset {
    pub open spec fn label(self) -> Seq<char> {
        match self {
            ExportPreset::FastPreview => "Fast Preview"@,
            ExportPreset::Balanced => "Balanced"@,
            ExportPreset::HighQuality => "High Quality"@,
            ExportPreset::Lossless => "Lossless"@,
        }
    }

    pub fn as_str(self) -> (s: &'static str)
        ensures
            s@ == self.label(),
    {
        match self {
            ExportPreset::FastPreview => "Fast Preview",
            ExportPreset::Balanced => "Balanced",
            ExportPreset::HighQuality => "High Quality",
            ExportPreset::Lossless => "Lossless",
        }
    }
}

impl Default for ExportPreset {
    fn default() -> (p: Self)
        ensures
            p == ExportPreset::Balanced,
    {
        ExportPreset::Balanced
    }
}

/// A crop rectangle in frame pixels.
#[derive(Debug, Clone, Copy, PartialEq, Eq, Structural)]
pub struct CropRect {
    pub x: u32,
    pub y: u32,
    pub width: u32,
    pub height: u32,
}

/// A target size in pixels.
#[derive(Debug, Clone, Copy, PartialEq, Eq, Structural)]
pub struct ResizeTarget {
    pub width: u32,
    pub height: u32,
}

/// Which frame sets the export size when no explicit size is given.
#[derive(Debug, Clone, Copy, PartialEq, Eq, Structural)]
pub enum OriginalSizeReference {
    SmallestFrame,
    LargestFrame,
}

impl OriginalSizeReference {
    pub open spec fn label(self) -> Seq<char> {
        match self {
            OriginalSizeReference::LargestFrame => "Largest Frame"@,
            OriginalSizeReference::SmallestFrame => "Smallest Frame"@,
        }
    }

    pub fn as_str(self) -> (s: &'static str)
        ensures
            s@ == self.label(),
    {
        match self {
            OriginalSizeReference::LargestFrame => "Largest Frame",
            OriginalSizeReference::SmallestFrame => "Smallest Frame",
        }
    }
}

impl Default for OriginalSizeReference {
    fn default() -> (r: Self)
        ensures
            r == OriginalSizeReference::LargestFrame,
    {
        OriginalSizeReference::LargestFrame
    }
}

/// Non-destructive per-frame edits.
#[derive(Debug, Clone, Copy, PartialEq, Eq, Structural)]
pub struct TransformSpec {
    pub rotate_quarter_turns: i32,
    pub flip_horizontal: bool,
    pub flip_vertical: bool,
    pub crop: Option<CropRect>,
    pub resize: Option<ResizeTarget>,
    pub fit_mode: FitMode,
}

impl TransformSpec {
    pub open spec fn identity() -> TransformSpec {
        TransformSpec {
            rotate_quarter_turns: 0,
            flip_horizontal: false,
            flip_vertical: false,
            crop: None,
            resize: None,
            fit_mode: FitMode::Contain,
        }
    }
}

impl Default for TransformSpec {
    fn default() -> (t: Self)
        ensures
            t == TransformSpec::identity(),
    {
        TransformSpec {
            rotate_quarter_turns: 0,
            flip_horizontal: false,
            flip_vertical: false,
            crop: None,
            resize: None,
            fit_mode: FitMode::Contain,
        }
    }
}

/// What `Path::file_name` gives for a path: its last normal component.
pub uninterp spec fn path_file_name(path: Seq<char>) -> Option<Seq<char>>;

/// Calls `std::path::Path::file_name` on `path`. The result is claimed to be
/// the value of `path_file_name` on the characters of `path`; nothing more is
/// stated of it. A final component that is not valid Unicode cannot arise,
/// since the path is built from a `str`.
#[verifier::external_body]
pub(crate) fn std_path_file_name(path: &str) -> (name: Option<String>)
    ensures
        match name {
            Some(n) => path_file_name(path@) == Some(n@),
            None => path_file_name(path@) is None,
        },
{
    match std::path::Path::new(path).file_name() {
        Some(value) => Some(value.to_string_lossy().into_owned()),
        None => None,
    }
}

/// One image of the timeline.
#[derive(Debug)]
pub struct FrameItem {
    pub id: u64,
    pub source_path: String,
    pub duration_ms: u32,
    pub transform_spec: TransformSpec,
    pub thumbnail_path: Option<String>,
    pub enabled: bool,
    pub source_dimensions: Option<(u32, u32)>,
}

impl Clone for FrameItem {
    fn clone(&self) -> (c: Self)
        ensures
            c == *self,
    {
        let thumbnail_path = match &self.thumbnail_path {
            Some(p) => Some(p.clone()),
            None => None,
        };
        FrameItem {
            id: self.id,
            source_path: self.source_path.clone(),
            duration_ms: self.duration_ms,
            transform_spec: self.transform_spec,
            thumbnail_path,
            enabled: self.enabled,
            source_dimensions: self.source_dimensions,
        }
    }
}

impl FrameItem {
    /// The name shown for a frame: the last component of its source path, or
    /// the whole path when it has none.
    pub open spec fn display_name(self) -> Seq<char> {
        match path_file_name(self.source_path@) {
            Some(n) => n,
            None => self.source_path@,
        }
    }

    pub fn file_name(&self) -> (name: String)
        ensures
            name@ == self.display_name(),
    {
        match std_path_file_name(self.source_path.as_str()) {
            Some(n) => n,
            None => self.source_path.clone(),
        }
    }

    /// The same frame under another id.
    pub open spec fn with_id(self, id: u64) -> FrameItem {
        FrameItem { id, ..self }
    }

    /// A frame as first imported from a path.
    pub open spec fn imported(id: u64, path: String) -> FrameItem {
        FrameItem {
            id,
            source_path: path,
            duration_ms: 100,
            transform_spec: TransformSpec::identity(),
            thumbnail_path: None,
            enabled: true,
            source_dimensions: None,
        }
    }
}

/// The export settings of a project. Quality is kept in hundredths of a
/// point on the 0 to 100 scale (7500 stands for 75.00).
#[derive(Debug)]
pub struct ExportProfile {
    pub format: ExportFormat,
    pub preset: ExportPreset,
    pub output_width: Option<u32>,
    pub output_height: Option<u32>,
    pub original_size_reference: OriginalSizeReference,
    pub fit_mode: FitMode,
    pub quality_hundredths: u32,
    pub lossless: bool,
    pub encoder_preset: EncoderPreset,
    pub mp4_video_encoder: String,
    pub cr_threshold: u32,
    pub cr_size: u32,
    pub loop_count: u32,
    pub overwrite: bool,
    pub raw_args: String,
}

impl Clone for ExportProfile {
    fn clone(&self) -> (c: Self)
        ensures
            c == *self,
    {
        ExportProfile {
            format: self.format,
            preset: self.preset,
            output_width: self.output_width,
            output_height: self.output_height,
            original_size_reference: self.original_size_reference,
            fit_mode: self.fit_mode,
            quality_hundredths: self.quality_hundredths,
            lossless: self.lossless,
            encoder_preset: self.encoder_preset,
            mp4_video_encoder: self.mp4_video_encoder.clone(),
            cr_threshold: self.cr_threshold,
            cr_size: self.cr_size,
            loop_count: self.loop_count,
            overwrite: self.overwrite,
            raw_args: self.raw_args.clone(),
        }
    }
}

/// The quality of a preset, in hundredths.
pub open spec fn preset_quality(p: ExportPreset) -> u32 {
    match p {
        ExportPreset::FastPreview => 4500,
        ExportPreset::Balanced => 7500,
        ExportPreset::HighQuality => 9200,
        ExportPreset::Lossless => 10000,
    }
}

/// The libwebp preset of a preset.
pub open spec fn preset_encoder(p: ExportPreset) -> EncoderPreset {
    match p {
        ExportPreset::FastPreview => EncoderPreset::Default,
        ExportPreset::Balanced => EncoderPreset::Default,
        ExportPreset::HighQuality => EncoderPreset::Photo,
        ExportPreset::Lossless => EncoderPreset::Drawing,
    }
}

impl ExportProfile {
    /// The settings a preset fixes.
    pub open spec fn preset_settings(self, p: ExportPreset) -> bool {
        &&& self.preset == p
        &&& self.fit_mode == FitMode::Contain
        &&& self.quality_hundredths == preset_quality(p)
        &&& self.lossless == (p == ExportPreset::Lossless)
        &&& self.encoder_preset == preset_encoder(p)
        &&& self.cr_threshold == 0
        &&& self.cr_size == 16
    }

    /// The settings of a fresh profile for a preset.
    pub open spec fn is_fresh(self, p: ExportPreset) -> bool {
        &&& self.preset_settings(p)
        &&& self.format == ExportFormat::WebP
        &&& self.output_width is None
        &&& self.output_height is None
        &&& self.original_size_reference == OriginalSizeReference::LargestFrame
        &&& self.mp4_video_encoder@ == "libx265"@
        &&& self.loop_count == 0
        &&& self.overwrite
        &&& self.raw_args@.len() == 0
    }

    pub fn from_preset(preset: ExportPreset) -> (p: Self)
        ensures
            p.is_fresh(preset),
    {
        let (quality_hundredths, lossless, encoder_preset) = match preset {
            ExportPreset::FastPreview => (4500u32, false, EncoderPreset::Default),
            ExportPreset::Balanced => (7500u32, false, EncoderPreset::Default),
            ExportPreset::HighQuality => (9200u32, false, EncoderPreset::Photo),
            ExportPreset::Lossless => (10000u32, true, EncoderPreset::Drawing),
        };
        ExportProfile {
            format: ExportFormat::WebP,
            preset,
            output_width: None,
            output_height: None,
            original_size_reference: OriginalSizeReference::LargestFrame,
            fit_mode: FitMode::Contain,
            quality_hundredths,
            lossless,
            encoder_preset,
            mp4_video_encoder: crate::mp4::default_mp4_encoder_name(),
            cr_threshold: 0,
            cr_size: 16,
            loop_count: 0,
            overwrite: true,
            raw_args: String::new(),
        }
    }

    /// Switches to a preset: the settings the preset fixes are replaced,
    /// while the format, output size, size reference, loop count, overwrite
    /// flag, MP4 encoder and extra arguments are kept.
    pub fn apply_preset(&mut self, preset: ExportPreset)
        ensures
            final(self).preset_settings(preset),
            final(self).format == old(self).format,
            final(self).output_width == old(self).output_width,
            final(self).output_height == old(self).output_height,
            final(self).original_size_reference == old(self).original_size_reference,
            final(self).loop_count == old(self).loop_count,
            final(self).overwrite == old(self).overwrite,
            final(self).mp4_video_encoder == old(self).mp4_video_encoder,
            final(self).raw_args == old(self).raw_args,
    {
        let format = self.format;
        let raw_args = self.raw_args.clone();
        let output_width = self.output_width;
        let output_height = self.output_height;
        let original_size_reference = self.original_size_reference;
        let loop_count = self.loop_count;
        let overwrite = self.overwrite;
        let mp4_video_encoder = self.mp4_video_encoder.clone();
        *self = Self::from_preset(preset);
        self.format = format;
        self.raw_args = raw_args;
        self.output_width = output_width;
        self.output_height = output_height;
        self.original_size_reference = original_size_reference;
        self.loop_count = loop_count;
        self.overwrite = overwrite;
        self.mp4_video_encoder = mp4_video_encoder;
    }
}

impl Default for ExportProfile {
    fn default() -> (p: Self)
        ensures
            p.is_fresh(ExportPreset::Balanced),
    {
        Self::from_preset(ExportPreset::Balanced)
    }
}

/// The outcome of a finished export.
#[derive(Debug, Clone, PartialEq, Eq)]
pub struct ExportJob {
    pub temp_dir: String,
    pub manifest_path: String,
    pub output_path: String,
    pub effective_command: String,
    pub status: String,
}

} // verus!
