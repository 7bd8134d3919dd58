//! MP4 encoders: the encoders the export knows, which of them a machine
//! supports, and the software fallback of each.
use crate::probe::strictly_sorted;
use crate::text::{list_contains, same_text, text_of, texts};
use vstd::prelude::*;

verus! {

/// The video codec an encoder produces.
#[derive(Debug, Clone, Copy, PartialEq, Eq, Structural)]
pub enum Mp4CodecFamily {
    Hevc,
    H264,
    Av1,
}

impl Mp4CodecFamily {
    pub open spec fn label(self) -> Seq<char> {
        match self {
            Mp4CodecFamily::Hevc => "H.265 / HEVC"@,
            Mp4CodecFamily::H264 => "H.264 / AVC"@,
            Mp4CodecFamily::Av1 => "AV1"@,
        }
    }

    pub fn as_str(self) -> (s: &'static str)
        ensures
            s@ == self.label(),
    {
        match self {
            Mp4CodecFamily::Hevc => "H.265 / HEVC",
            Mp4CodecFamily::H264 => "H.264 / AVC",
            Mp4CodecFamily::Av1 => "AV1",
        }
    }
}

/// An encoder offered to the user.
#[derive(Debug)]
pub struct Mp4EncoderChoice {
    pub ffmpeg_name: String,
    pub label: String,
    pub codec_family: Mp4CodecFamily,
    pub hardware: bool,
}

impl Clone for Mp4EncoderChoice {
    fn clone(&self) -> (c: Self)
        ensures
            c == *self,
    {
        Mp4EncoderChoice {
            ffmpeg_name: self.ffmpeg_name.clone(),
            label: self.label.clone(),
            codec_family: self.codec_family,
            hardware: self.hardware,
        }
    }
}

/// What the local ffmpeg build and machine offer for MP4 export. The two
/// name lists hold each name once, in increasing order.
#[derive(Debug)]
pub struct Mp4Capabilities {
    pub available_encoders: Vec<String>,
    pub hardware_accels: Vec<String>,
    pub encoder_choices: Vec<Mp4EncoderChoice>,
    pub preferred_encoder: Option<String>,
    pub dri_render_node: Option<String>,
    pub nvidia_device_available: bool,
}

impl Mp4Capabilities {
    /// The two name lists hold each name once, in increasing order.
    pub open spec fn wf(self) -> bool {
        &&& strictly_sorted(texts(self.available_encoders@))
        &&& strictly_sorted(texts(self.hardware_accels@))
    }

    /// Nothing detected: no encoders, accelerations or choices, no render
    /// node and no NVIDIA device.
    pub open spec fn is_nothing(self) -> bool {
        &&& self.available_encoders@.len() == 0
        &&& self.hardware_accels@.len() == 0
        &&& self.encoder_choices@.len() == 0
        &&& self.preferred_encoder is None
        &&& self.dri_render_node is None
        &&& !self.nvidia_device_available
    }
}

impl Default for Mp4Capabilities {
    fn default() -> (c: Self)
        ensures
            c.is_nothing(),
            c.wf(),
    {
        Mp4Capabilities {
            available_encoders: Vec::new(),
            hardware_accels: Vec::new(),
            encoder_choices: Vec::new(),
            preferred_encoder: None,
            dri_render_node: None,
            nvidia_device_available: false,
        }
    }
}

/// The hardware backend an encoder needs.
#[derive(Debug, Clone, Copy, PartialEq, Eq, Structural)]
pub enum Mp4Backend {
    Cuda,
    Qsv,
    Vaapi,
}

impl Mp4Backend {
    /// The name ffmpeg lists the backend under in `-hwaccels`.
    pub open spec fn accel_name(self) -> Seq<char> {
        match self {
            Mp4Backend::Cuda => "cuda"@,
            Mp4Backend::Qsv => "qsv"@,
            Mp4Backend::Vaapi => "vaapi"@,
        }
    }

    fn accel_str(self) -> (s: &'static str)
        ensures
            s@ == self.accel_name(),
    {
        match self {
            Mp4Backend::Cuda => "cuda",
            Mp4Backend::Qsv => "qsv",
            Mp4Backend::Vaapi => "vaapi",
        }
    }
}

/// An entry of the encoder table.
#[derive(Debug, Clone, Copy)]
pub struct KnownMp4Encoder {
    pub name: &'static str,
    pub label: &'static str,
    pub codec_family: Mp4CodecFamily,
    pub hardware: bool,
    pub backend: Option<Mp4Backend>,
}

pub open spec fn known(
    name: &'static str,
    label: &'static str,
    codec_family: Mp4CodecFamily,
    hardware: bool,
    backend: Option<Mp4Backend>,
) -> KnownMp4Encoder {
    KnownMp4Encoder { name, label, codec_family, hardware, backend }
}

/// The encoders the export knows, best first within each codec family and
/// families in the order HEVC, H.264, AV1.
pub open spec fn known_table() -> Seq<KnownMp4Encoder> {
    seq![
        known("hevc_nvenc", "H.265 / HEVC (NVIDIA NVENC)", Mp4CodecFamily::Hevc, true, Some(Mp4Backend::Cuda)),
        known("hevc_qsv", "H.265 / HEVC (Intel Quick Sync)", Mp4CodecFamily::Hevc, true, Some(Mp4Backend::Qsv)),
        known("hevc_vaapi", "H.265 / HEVC (VAAPI)", Mp4CodecFamily::Hevc, true, Some(Mp4Backend::Vaapi)),
        known("libx265", "H.265 / HEVC (Software x265)", Mp4CodecFamily::Hevc, false, None),
        known("h264_nvenc", "H.264 / AVC (NVIDIA NVENC)", Mp4CodecFamily::H264, true, Some(Mp4Backend::Cuda)),
        known("h264_qsv", "H.264 / AVC (Intel Quick Sync)", Mp4CodecFamily::H264, true, Some(Mp4Backend::Qsv)),
        known("h264_vaapi", "H.264 / AVC (VAAPI)", Mp4CodecFamily::H264, true, Some(Mp4Backend::Vaapi)),
        known("libx264", "H.264 / AVC (Software x264)", Mp4CodecFamily::H264, false, None),
        known("av1_nvenc", "AV1 (NVIDIA NVENC)", Mp4CodecFamily::Av1, true, Some(Mp4Backend::Cuda)),
        known("av1_qsv", "AV1 (Intel Quick Sync)", Mp4CodecFamily::Av1, true, Some(Mp4Backend::Qsv)),
        known("av1_vaapi", "AV1 (VAAPI)", Mp4CodecFamily::Av1, true, Some(Mp4Backend::Vaapi)),
        known("libsvtav1", "AV1 (Software SVT-AV1)", Mp4CodecFamily::Av1, false, None),
        known("libaom-av1", "AV1 (Software libaom)", Mp4CodecFamily::Av1, false, None),
    ]
}

fn known_mp4_encoders() -> (v: Vec<KnownMp4Encoder>)
    ensures
        v@ == known_table(),
{
    let mut v: Vec<KnownMp4Encoder> = Vec::new();
    v.push(KnownMp4Encoder { name: "hevc_nvenc", label: "H.265 / HEVC (NVIDIA NVENC)", codec_family: Mp4CodecFamily::Hevc, hardware: true, backend: Some(Mp4Backend::Cuda) });
    v.push(KnownMp4Encoder { name: "hevc_qsv", label: "H.265 / HEVC (Intel Quick Sync)", codec_family: Mp4CodecFamily::Hevc, hardware: true, backend: Some(Mp4Backend::Qsv) });
    v.push(KnownMp4Encoder { name: "hevc_vaapi", label: "H.265 / HEVC (VAAPI)", codec_family: Mp4CodecFamily::Hevc, hardware: true, backend: Some(Mp4Backend::Vaapi) });
    v.push(KnownMp4Encoder { name: "libx265", label: "H.265 / HEVC (Software x265)", codec_family: Mp4CodecFamily::Hevc, hardware: false, backend: None });
    v.push(KnownMp4Encoder { name: "h264_nvenc", label: "H.264 / AVC (NVIDIA NVENC)", codec_family: Mp4CodecFamily::H264, hardware: true, backend: Some(Mp4Backend::Cuda) });
    v.push(KnownMp4Encoder { name: "h264_qsv", label: "H.264 / AVC (Intel Quick Sync)", codec_family: Mp4CodecFamily::H264, hardware: true, backend: Some(Mp4Backend::Qsv) });
    v.push(KnownMp4Encoder { name: "h264_vaapi", label: "H.264 / AVC (VAAPI)", codec_family: Mp4CodecFamily::H264, hardware: true, backend: Some(Mp4Backend::Vaapi) });
    v.push(KnownMp4Encoder { name: "libx264", label: "H.264 / AVC (Software x264)", codec_family: Mp4CodecFamily::H264, hardware: false, backend: None });
    v.push(KnownMp4Encoder { name: "av1_nvenc", label: "AV1 (NVIDIA NVENC)", codec_family: Mp4CodecFamily::Av1, hardware: true, backend: Some(Mp4Backend::Cuda) });
    v.push(KnownMp4Encoder { name: "av1_qsv", label: "AV1 (Intel Quick Sync)", codec_family: Mp4CodecFamily::Av1, hardware: true, backend: Some(Mp4Backend::Qsv) });
    v.push(KnownMp4Encoder { name: "av1_vaapi", label: "AV1 (VAAPI)", codec_family: Mp4CodecFamily::Av1, hardware: true, backend: Some(Mp4Backend::Vaapi) });
    v.push(KnownMp4Encoder { name: "libsvtav1", label: "AV1 (Software SVT-AV1)", codec_family: Mp4CodecFamily::Av1, hardware: false, backend: None });
    v.push(KnownMp4Encoder { name: "libaom-av1", label: "AV1 (Software libaom)", codec_family: Mp4CodecFamily::Av1, hardware: false, backend: None });
    assert(v@ =~= known_table());
    v
}

/// The first table entry named `name`.
pub open spec fn known_entry(name: Seq<char>) -> Option<KnownMp4Encoder> {
    first_named(known_table(), name)
}

pub open spec fn first_named(t: Seq<KnownMp4Encoder>, name: Seq<char>) -> Option<KnownMp4Encoder>
    decreases t.len(),
{
    if t.len() == 0 {
        None
    } else if t[0].name@ == name {
        Some(t[0])
    } else {
        first_named(t.drop_first(), name)
    }
}

fn known_mp4_encoder(name: &str) -> (r: Option<KnownMp4Encoder>)
    ensures
        r == known_entry(name@),
{
    let table = known_mp4_encoders();
    assert(known_table().skip(0) =~= known_table());
    let mut i: usize = 0;
    while i < table.len()
        invariant
            i <= table@.len(),
            table@ == known_table(),
            first_named(known_table(), name@) == first_named(known_table().skip(i as int), name@),
        decreases table@.len() - i,
    {
        assert(known_table().skip(i as int).drop_first() =~= known_table().skip(i + 1));
        if same_text(table[i].name, name) {
            return Some(table[i]);
        }
        i += 1;
    }
    None
}

/// The name of the encoder an export uses by default.
pub fn default_mp4_encoder_name() -> (s: String)
    ensures
        s@ == "libx265"@,
{
    "libx265".to_owned()
}

/// The display label of a known encoder.
pub fn known_mp4_encoder_label(name: &str) -> (r: Option<&'static str>)
    ensures
        match known_entry(name@) {
            Some(k) => r == Some(k.label),
            None => r is None,
        },
{
    match known_mp4_encoder(name) {
        Some(k) => Some(k.label),
        None => None,
    }
}

/// Whether `name` is in the encoder table.
pub fn is_known_mp4_encoder(name: &str) -> (b: bool)
    ensures
        b == known_entry(name@) is Some,
{
    known_mp4_encoder(name).is_some()
}

/// The software encoder for the codec family of `name`: x264 for H.264,
/// SVT-AV1 for AV1, and x265 otherwise.
pub open spec fn fallback_name(name: Seq<char>) -> Seq<char> {
    match known_entry(name) {
        Some(k) => match k.codec_family {
            Mp4CodecFamily::H264 => "libx264"@,
            Mp4CodecFamily::Av1 => "libsvtav1"@,
            Mp4CodecFamily::Hevc => "libx265"@,
        },
        None => "libx265"@,
    }
}

pub fn software_fallback_mp4_encoder(name: &str) -> (s: &'static str)
    ensures
        s@ == fallback_name(name@),
{
    match known_mp4_encoder(name) {
        Some(k) => match k.codec_family {
            Mp4CodecFamily::H264 => "libx264",
            Mp4CodecFamily::Av1 => "libsvtav1",
            Mp4CodecFamily::Hevc => "libx265",
        },
        None => "libx265",
    }
}

/// Whether the machine can use encoder `k`: ffmpeg lists it, and for a
/// hardware encoder the matching device and ffmpeg acceleration exist.
pub open spec fn supported(
    k: KnownMp4Encoder,
    encoders: Seq<Seq<char>>,
    accels: Seq<Seq<char>>,
    has_render_node: bool,
    nvidia: bool,
) -> bool {
    &&& encoders.contains(k.name@)
    &&& match k.backend {
        Some(Mp4Backend::Cuda) => nvidia && accels.contains("cuda"@),
        Some(Mp4Backend::Qsv) => has_render_node && accels.contains("qsv"@),
        Some(Mp4Backend::Vaapi) => has_render_node && accels.contains("vaapi"@),
        None => true,
    }
}

/// The supported entries among `t`, in order.
pub open spec fn supported_among(
    t: Seq<KnownMp4Encoder>,
    encoders: Seq<Seq<char>>,
    accels: Seq<Seq<char>>,
    has_render_node: bool,
    nvidia: bool,
) -> Seq<KnownMp4Encoder>
    decreases t.len(),
{
    if t.len() == 0 {
        t
    } else if supported(t.last(), encoders, accels, has_render_node, nvidia) {
        supported_among(t.drop_last(), encoders, accels, has_render_node, nvidia).push(t.last())
    } else {
        supported_among(t.drop_last(), encoders, accels, has_render_node, nvidia)
    }
}

/// The choice offered for a table entry.
pub open spec fn choice_of(c: Mp4EncoderChoice, k: KnownMp4Encoder) -> bool {
    &&& c.ffmpeg_name@ == k.name@
    &&& c.label@ == k.label@
    &&& c.codec_family == k.codec_family
    &&& c.hardware == k.hardware
}

fn encoder_supported(
    encoder: &KnownMp4Encoder,
    available_encoders: &Vec<String>,
    hardware_accels: &Vec<String>,
    has_render_node: bool,
    nvidia_device_available: bool,
) -> (b: bool)
    ensures
        b == supported(*encoder, texts(available_encoders@), texts(hardware_accels@), has_render_node, nvidia_device_available),
{
    if !list_contains(available_encoders, encoder.name) {
        return false;
    }
    match encoder.backend {
        Some(Mp4Backend::Cuda) => nvidia_device_available && list_contains(hardware_accels, Mp4Backend::Cuda.accel_str()),
        Some(Mp4Backend::Qsv) => has_render_node && list_contains(hardware_accels, Mp4Backend::Qsv.accel_str()),
        Some(Mp4Backend::Vaapi) => has_render_node && list_contains(hardware_accels, Mp4Backend::Vaapi.accel_str()),
        None => true,
    }
}

/// The capabilities of a machine on which ffmpeg lists `available_encoders`
/// and `hardware_accels`, with the given render node and NVIDIA device. The
/// choices are the supported table entries in table order, and the first of
/// them is preferred.
pub fn collect_mp4_capabilities_with_detection(
    available_encoders: Vec<String>,
    hardware_accels: Vec<String>,
    dri_render_node: Option<String>,
    nvidia_device_available: bool,
) -> (c: Mp4Capabilities)
    requires
        strictly_sorted(texts(available_encoders@)),
        strictly_sorted(texts(hardware_accels@)),
    ensures
        c.wf(),
        ({
            let sup = supported_among(
                known_table(),
                texts(available_encoders@),
                texts(hardware_accels@),
                dri_render_node is Some,
                nvidia_device_available,
            );
            &&& c.encoder_choices@.len() == sup.len()
            &&& forall|i: int| 0 <= i < sup.len() ==> choice_of(#[trigger] c.encoder_choices@[i], sup[i])
            &&& match c.preferred_encoder {
                Some(p) => sup.len() > 0 && p@ == sup[0].name@,
                None => sup.len() == 0,
            }
        }),
        c.available_encoders == available_encoders,
        c.hardware_accels == hardware_accels,
        c.dri_render_node == dri_render_node,
        c.nvidia_device_available == nvidia_device_available,
        forall|i: int|
            0 <= i < known_table().len() && known_table()[i].hardware && #[trigger] supported(
                known_table()[i],
                texts(available_encoders@),
                texts(hardware_accels@),
                dri_render_node is Some,
                nvidia_device_available,
            ) ==> {
                &&& c.encoder_choices@.len() > 0
                &&& c.preferred_encoder == Some(c.encoder_choices@[0].ffmpeg_name)
                &&& (c.encoder_choices@[0].codec_family == known_table()[i].codec_family
                    ==> c.encoder_choices@[0].hardware)
                &&& (known_table()[i].codec_family == Mp4CodecFamily::Hevc ==> c.encoder_choices@[0].hardware
                    && c.encoder_choices@[0].codec_family == Mp4CodecFamily::Hevc)
            },
{
    let ghost enc = texts(available_encoders@);
    let ghost acc = texts(hardware_accels@);
    let has_render_node = dri_render_node.is_some();
    let table = known_mp4_encoders();
    let mut choices: Vec<Mp4EncoderChoice> = Vec::new();
    let mut i: usize = 0;
    while i < table.len()
        invariant
            i <= table@.len(),
            table@ == known_table(),
            enc == texts(available_encoders@),
            acc == texts(hardware_accels@),
            has_render_node == dri_render_node is Some,
            choices@.len() == supported_among(table@.take(i as int), enc, acc, has_render_node, nvidia_device_available).len(),
            forall|j: int|
                0 <= j < choices@.len() ==> choice_of(
                    #[trigger] choices@[j],
                    supported_among(table@.take(i as int), enc, acc, has_render_node, nvidia_device_available)[j],
                ),
        decreases table@.len() - i,
    {
        proof {
            assert(table@.take(i + 1).drop_last() =~= table@.take(i as int));
        }
        let k = table[i];
        if encoder_supported(&k, &available_encoders, &hardware_accels, has_render_node, nvidia_device_available) {
            choices.push(
                Mp4EncoderChoice {
                    ffmpeg_name: text_of(k.name),
                    label: text_of(k.label),
                    codec_family: k.codec_family,
                    hardware: k.hardware,
                },
            );
        }
        i += 1;
    }
    assert(table@.take(table@.len() as int) =~= table@);
    let preferred_encoder = if choices.len() > 0 {
        Some(choices[0].ffmpeg_name.clone())
    } else {
        None
    };
    proof {
        assert forall|i: int|
            0 <= i < known_table().len() && known_table()[i].hardware && #[trigger] supported(
                known_table()[i],
                enc,
                acc,
                has_render_node,
                nvidia_device_available,
            ) implies choices@.len() > 0 && (choices@[0].codec_family == known_table()[i].codec_family
            ==> choices@[0].hardware) && (known_table()[i].codec_family == Mp4CodecFamily::Hevc
            ==> choices@[0].hardware && choices@[0].codec_family == Mp4CodecFamily::Hevc) by {
            law_hardware_encoder_is_preferred(enc, acc, has_render_node, nvidia_device_available, i);
            assert(choice_of(choices@[0], supported_among(known_table(), enc, acc, has_render_node, nvidia_device_available)[0]));
        }
    }
    Mp4Capabilities {
        available_encoders,
        hardware_accels,
        encoder_choices: choices,
        preferred_encoder,
        dri_render_node,
        nvidia_device_available,
    }
}

/// The encoder names of the choices.
pub open spec fn choice_names(c: Seq<Mp4EncoderChoice>) -> Seq<Seq<char>> {
    c.map_values(|x: Mp4EncoderChoice| x.ffmpeg_name@)
}

/// The encoder to use for a selection: the selection itself when it is
/// among the choices, else the preferred encoder, else the first choice.
pub open spec fn normalized_encoder(selected: Seq<char>, caps: Mp4Capabilities) -> Option<Seq<char>> {
    if choice_names(caps.encoder_choices@).contains(selected) {
        Some(selected)
    } else {
        match caps.preferred_encoder {
            Some(p) => Some(p@),
            None => if caps.encoder_choices@.len() > 0 {
                Some(caps.encoder_choices@[0].ffmpeg_name@)
            } else {
                None
            },
        }
    }
}

pub fn normalized_mp4_encoder(selected: &str, capabilities: &Mp4Capabilities) -> (r: Option<String>)
    ensures
        match r {
            Some(s) => normalized_encoder(selected@, *capabilities) == Some(s@),
            None => normalized_encoder(selected@, *capabilities) is None,
        },
{
    let choices = &capabilities.encoder_choices;
    let mut i: usize = 0;
    while i < choices.len()
        invariant
            i <= choices@.len(),
            choices@ == capabilities.encoder_choices@,
            forall|k: int| 0 <= k < i ==> choices@[k].ffmpeg_name@ != selected@,
        decreases choices@.len() - i,
    {
        if same_text(choices[i].ffmpeg_name.as_str(), selected) {
            assert(choice_names(choices@)[i as int] == selected@);
            return Some(text_of(selected));
        }
        i += 1;
    }
    proof {
        if choice_names(choices@).contains(selected@) {
            let w = choose|w: int| 0 <= w < choice_names(choices@).len() && choice_names(choices@)[w] == selected@;
            assert(choices@[w].ffmpeg_name@ == selected@);
        }
    }
    match &capabilities.preferred_encoder {
        Some(p) => Some(p.clone()),
        None => {
            if choices.len() > 0 {
                Some(choices[0].ffmpeg_name.clone())
            } else {
                None
            }
        },
    }
}

/// Every entry that the machine is found to support passes the support
/// test, so each offered encoder is one that ffmpeg lists.
pub proof fn law_supported_entries_are_listed(
    t: Seq<KnownMp4Encoder>,
    encoders: Seq<Seq<char>>,
    accels: Seq<Seq<char>>,
    has_render_node: bool,
    nvidia: bool,
)
    ensures
        forall|i: int|
            0 <= i < supported_among(t, encoders, accels, has_render_node, nvidia).len() ==> supported(
                #[trigger] supported_among(t, encoders, accels, has_render_node, nvidia)[i],
                encoders,
                accels,
                has_render_node,
                nvidia,
            ),
        forall|i: int|
            0 <= i < supported_among(t, encoders, accels, has_render_node, nvidia).len() ==> encoders.contains(
                (#[trigger] supported_among(t, encoders, accels, has_render_node, nvidia)[i]).name@,
            ),
    decreases t.len(),
{
    if t.len() > 0 {
        law_supported_entries_are_listed(t.drop_last(), encoders, accels, has_render_node, nvidia);
    }
}

/// When the preferred encoder is the first choice (as collected
/// capabilities have it), the encoder chosen for any selection is one of
/// the choices, a selection among the choices is kept, and there is a
/// choice exactly when there are choices at all.
pub proof fn law_normalized_encoder_is_a_choice(selected: Seq<char>, caps: Mp4Capabilities)
    requires
        match caps.preferred_encoder {
            Some(p) => caps.encoder_choices@.len() > 0 && p@ == caps.encoder_choices@[0].ffmpeg_name@,
            None => caps.encoder_choices@.len() == 0,
        },
    ensures
        normalized_encoder(selected, caps) is Some <==> caps.encoder_choices@.len() > 0,
        normalized_encoder(selected, caps) matches Some(n) ==> choice_names(caps.encoder_choices@).contains(n),
        choice_names(caps.encoder_choices@).contains(selected) ==> normalized_encoder(selected, caps) == Some(
            selected,
        ),
{
    let names = choice_names(caps.encoder_choices@);
    if names.contains(selected) {
        let w = choose|w: int| 0 <= w < names.len() && names[w] == selected;
        assert(names.len() == caps.encoder_choices@.len());
    } else if caps.encoder_choices@.len() > 0 {
        assert(names[0] == caps.encoder_choices@[0].ffmpeg_name@);
    }
}

/// The family block of a table position: HEVC, then H.264, then AV1.
spec fn block_of(k: int) -> int {
    if k < 4 {
        0
    } else if k < 8 {
        1
    } else {
        2
    }
}

/// The shape of the encoder table: three blocks (HEVC, H.264, AV1), each
/// its three hardware encoders followed by its software ones.
proof fn lemma_table_shape(k: int)
    requires
        0 <= k < known_table().len(),
    ensures
        known_table().len() == 13,
        known_table()[k].codec_family == (if k < 4 {
            Mp4CodecFamily::Hevc
        } else if k < 8 {
            Mp4CodecFamily::H264
        } else {
            Mp4CodecFamily::Av1
        }),
        known_table()[k].hardware == (k % 4 != 3 && k < 11),
{
    let t = known_table();
        if k == 0 {
            assert(t[0] == t[0]);
        } else if k == 1 {
            assert(t[1] == t[1]);
        } else if k == 2 {
            assert(t[2] == t[2]);
        } else if k == 3 {
            assert(t[3] == t[3]);
        } else if k == 4 {
            assert(t[4] == t[4]);
        } else if k == 5 {
            assert(t[5] == t[5]);
        } else if k == 6 {
            assert(t[6] == t[6]);
        } else if k == 7 {
            assert(t[7] == t[7]);
        } else if k == 8 {
            assert(t[8] == t[8]);
        } else if k == 9 {
            assert(t[9] == t[9]);
        } else if k == 10 {
            assert(t[10] == t[10]);
        } else if k == 11 {
            assert(t[11] == t[11]);
        } else if k == 12 {
            assert(t[12] == t[12]);
        }
}

/// Within a codec family every hardware encoder comes before the software
/// encoders in the table.
pub proof fn law_hardware_before_software(i: int, j: int)
    requires
        0 <= i < j < known_table().len(),
        known_table()[i].codec_family == known_table()[j].codec_family,
        known_table()[j].hardware,
    ensures
        known_table()[i].hardware,
{
    lemma_table_shape(i);
    lemma_table_shape(j);
}

/// The first supported entry of a table is the first entry of its
/// supported entries; there is one exactly when some entry is supported.
proof fn lemma_first_supported(
    t: Seq<KnownMp4Encoder>,
    encoders: Seq<Seq<char>>,
    accels: Seq<Seq<char>>,
    has_render_node: bool,
    nvidia: bool,
)
    ensures
        (supported_among(t, encoders, accels, has_render_node, nvidia).len() == 0) <==> (forall|i: int|
            0 <= i < t.len() ==> !#[trigger] supported(t[i], encoders, accels, has_render_node, nvidia)),
        supported_among(t, encoders, accels, has_render_node, nvidia).len() > 0 ==> exists|j: int|
            0 <= j < t.len() && #[trigger] supported(t[j], encoders, accels, has_render_node, nvidia)
                && supported_among(t, encoders, accels, has_render_node, nvidia)[0] == t[j] && forall|k: int|
                0 <= k < j ==> !#[trigger] supported(t[k], encoders, accels, has_render_node, nvidia),
    decreases t.len(),
{
    if t.len() > 0 {
        let p = t.drop_last();
        lemma_first_supported(p, encoders, accels, has_render_node, nvidia);
        assert(forall|i: int| 0 <= i < p.len() ==> #[trigger] p[i] == t[i]);
        let n = t.len() - 1;
        assert(t[n] == t.last());
        let sp = supported_among(p, encoders, accels, has_render_node, nvidia);
        if sp.len() > 0 {
            let j = choose|j: int|
                0 <= j < p.len() && #[trigger] supported(p[j], encoders, accels, has_render_node, nvidia) && sp[0]
                    == p[j] && forall|k: int|
                    0 <= k < j ==> !#[trigger] supported(p[k], encoders, accels, has_render_node, nvidia);
            assert(supported(t[j], encoders, accels, has_render_node, nvidia));
            assert forall|k: int| 0 <= k < j implies !#[trigger] supported(t[k], encoders, accels, has_render_node, nvidia) by {
                assert(p[k] == t[k]);
            }
        } else if supported(t.last(), encoders, accels, has_render_node, nvidia) {
            assert(supported(t[n], encoders, accels, has_render_node, nvidia));
            assert forall|k: int| 0 <= k < n implies !#[trigger] supported(t[k], encoders, accels, has_render_node, nvidia) by {
                assert(p[k] == t[k]);
            }
        } else {
            assert forall|i: int| 0 <= i < t.len() implies !#[trigger] supported(t[i], encoders, accels, has_render_node, nvidia) by {
                if i < n {
                    assert(p[i] == t[i]);
                }
            }
        }
    }
}

/// Hardware encoders win: whenever a hardware encoder of the same codec
/// family as the preferred (first offered) encoder is usable, the preferred
/// encoder is a hardware one; and whenever a hardware HEVC encoder is
/// usable, the preferred encoder is a hardware HEVC encoder, never a
/// software one.
pub proof fn law_hardware_encoder_is_preferred(
    encoders: Seq<Seq<char>>,
    accels: Seq<Seq<char>>,
    has_render_node: bool,
    nvidia: bool,
    i: int,
)
    requires
        0 <= i < known_table().len(),
        known_table()[i].hardware,
        supported(known_table()[i], encoders, accels, has_render_node, nvidia),
    ensures
        ({
            let sup = supported_among(known_table(), encoders, accels, has_render_node, nvidia);
            &&& sup.len() > 0
            &&& sup[0].codec_family == known_table()[i].codec_family ==> sup[0].hardware
            &&& known_table()[i].codec_family == Mp4CodecFamily::Hevc ==> sup[0].hardware && sup[0].codec_family
                == Mp4CodecFamily::Hevc
        }),
{
    let t = known_table();
    lemma_first_supported(t, encoders, accels, has_render_node, nvidia);
    let sup = supported_among(t, encoders, accels, has_render_node, nvidia);
    assert(sup.len() > 0);
    let j = choose|j: int|
        0 <= j < t.len() && #[trigger] supported(t[j], encoders, accels, has_render_node, nvidia) && sup[0] == t[j]
            && forall|k: int| 0 <= k < j ==> !#[trigger] supported(t[k], encoders, accels, has_render_node, nvidia);
    assert(j <= i);
    lemma_table_shape(i);
    lemma_table_shape(j);
    if j < i && t[j].codec_family == t[i].codec_family {
        law_hardware_before_software(j, i);
    }
}

} // verus!
