//! Trusted boundary to the `shiguredo_mp4` library: declarations of its
//! types that values of this crate carry, and small wrappers that convert
//! this crate's plain values into its boxes and call its demuxer and muxer.
//! Nothing here is proved; each wrapper says what it claims of the call.
use vstd::prelude::*;

use shiguredo_mp4::boxes::{
    AudioSampleEntryFields, Av01Box, Av1cBox, Avc1Box, AvccBox, DopsBox, EsdsBox, Hev1Box, HvccBox,
    HvccNalUintArray, Mp4aBox, OpusBox, SampleEntry, VisualSampleEntryFields,
};
use shiguredo_mp4::demux::{DemuxError, Input, Mp4FileDemuxer};
use shiguredo_mp4::descriptors::{
    DecoderConfigDescriptor, DecoderSpecificInfo, EsDescriptor, SlConfigDescriptor,
};
use shiguredo_mp4::mux::{Mp4FileMuxer, MuxError, Sample as MuxSample};
use shiguredo_mp4::Error as BoxCodecError;
use shiguredo_mp4::{FixedPointNumber, TrackKind, Uint};

use crate::demux::{DemuxStep, DemuxedSample, SampleInfo};
use crate::params::EntryCodec;
use crate::mux::{AppendedSample, MediaKind};
use crate::sample_entry::{
    av1_config_fits, avc_config_fits, decoder_config_fits, hevc_array_fits, hevc_fields_fit,
    AudioFields, Av1Config, AvcConfig, EsConfig, HevcConfig, HevcNaluArray, OpusConfig, SampleEntryParams,
    VisualFields,
};

verus! {

/// Error of the MP4 demuxer.
#[verifier::external_type_specification]
#[verifier::external_body]
pub struct ExDemuxError(DemuxError);

/// Error of the MP4 box encoder and decoder.
#[verifier::external_type_specification]
#[verifier::external_body]
pub struct ExBoxCodecError(BoxCodecError);

/// Error of the MP4 muxer.
#[verifier::external_type_specification]
#[verifier::external_body]
pub struct ExMuxError(MuxError);

/// A sample entry as the MP4 library represents it.
#[verifier::external_type_specification]
#[verifier::external_body]
pub struct ExSampleEntry(SampleEntry);

/// The MP4 library's file demuxer.
#[verifier::external_type_specification]
#[verifier::external_body]
pub struct ExMp4FileDemuxer(Mp4FileDemuxer);

/// The MP4 library's file muxer.
#[verifier::external_type_specification]
#[verifier::external_body]
pub struct ExMp4FileMuxer(Mp4FileMuxer);

/// `avcC` box of the MP4 library.
#[verifier::external_type_specification]
#[verifier::external_body]
pub struct ExAvccBox(AvccBox);

/// `hvcC` box of the MP4 library.
#[verifier::external_type_specification]
#[verifier::external_body]
pub struct ExHvccBox(HvccBox);

/// NAL unit array of an `hvcC` box of the MP4 library.
#[verifier::external_type_specification]
#[verifier::external_body]
pub struct ExHvccNalUintArray(HvccNalUintArray);

/// `av1C` box of the MP4 library.
#[verifier::external_type_specification]
#[verifier::external_body]
pub struct ExAv1cBox(Av1cBox);

/// Visual sample entry fields of the MP4 library.
#[verifier::external_type_specification]
#[verifier::external_body]
pub struct ExVisualSampleEntryFields(VisualSampleEntryFields);

/// Audio sample entry fields of the MP4 library.
#[verifier::external_type_specification]
#[verifier::external_body]
pub struct ExAudioSampleEntryFields(AudioSampleEntryFields);

/// Decoder configuration descriptor of the MP4 library.
#[verifier::external_type_specification]
#[verifier::external_body]
pub struct ExDecoderConfigDescriptor(DecoderConfigDescriptor);

/// A value of the MP4 library built from this crate's value `from()`.
/// Only the trusted conversions below make one.
pub struct Built<T, P> {
    value: T,
    from: Ghost<P>,
}

impl<T, P> Built<T, P> {
    /// The value of this crate it was built from.
    pub closed spec fn from(&self) -> P {
        self.from@
    }
}

/// A sample entry in the MP4 library's form, with the parameters it was
/// built from. Only the trusted `to_*_entry` conversions below make one.
pub struct OutputEntry {
    entry: SampleEntry,
    params: Ghost<SampleEntryParams>,
}

impl OutputEntry {
    /// The parameters the entry was built from.
    pub closed spec fn params(&self) -> SampleEntryParams {
        self.params@
    }
}

/// `VisualSampleEntryFields` literal built from `v`: its width and height,
/// the library's default data reference index, resolutions, frame count
/// and depth, and an empty compressor name.
#[verifier::external_body]
pub(crate) fn to_visual_fields(v: VisualFields) -> (r: Built<VisualSampleEntryFields, VisualFields>)
    ensures
        r.from() == v,
{
    let value = VisualSampleEntryFields {
        data_reference_index: VisualSampleEntryFields::DEFAULT_DATA_REFERENCE_INDEX,
        width: v.width,
        height: v.height,
        horizresolution: VisualSampleEntryFields::DEFAULT_HORIZRESOLUTION,
        vertresolution: VisualSampleEntryFields::DEFAULT_VERTRESOLUTION,
        frame_count: VisualSampleEntryFields::DEFAULT_FRAME_COUNT,
        compressorname: VisualSampleEntryFields::NULL_COMPRESSORNAME,
        depth: VisualSampleEntryFields::DEFAULT_DEPTH,
    };
    Built { value, from: Ghost(v) }
}

/// `AudioSampleEntryFields` literal built from `a`: its channel count and
/// integral sample rate (fraction 0), the library's default data reference
/// index and sample size.
#[verifier::external_body]
pub(crate) fn to_audio_fields(a: AudioFields) -> (r: Built<AudioSampleEntryFields, AudioFields>)
    ensures
        r.from() == a,
{
    let value = AudioSampleEntryFields {
        data_reference_index: AudioSampleEntryFields::DEFAULT_DATA_REFERENCE_INDEX,
        channelcount: a.channel_count,
        samplesize: AudioSampleEntryFields::DEFAULT_SAMPLESIZE,
        samplerate: FixedPointNumber::new(a.sample_rate, 0),
    };
    Built { value, from: Ghost(a) }
}

/// `AvccBox` literal holding the fields of `c`.
#[verifier::external_body]
pub(crate) fn to_avcc_box(c: &AvcConfig) -> (r: Built<AvccBox, AvcConfig>)
    requires
        avc_config_fits(*c),
    ensures
        r.from() == *c,
{
    let value = AvccBox {
        avc_profile_indication: c.avc_profile_indication,
        profile_compatibility: c.profile_compatibility,
        avc_level_indication: c.avc_level_indication,
        length_size_minus_one: Uint::new(c.length_size_minus_one),
        sps_list: c.sps_list.clone(),
        pps_list: c.pps_list.clone(),
        chroma_format: c.chroma_format.map(Uint::new),
        bit_depth_luma_minus8: c.bit_depth_luma_minus8.map(Uint::new),
        bit_depth_chroma_minus8: c.bit_depth_chroma_minus8.map(Uint::new),
        sps_ext_list: c.sps_ext_list.clone(),
    };
    Built { value, from: Ghost(*c) }
}

/// `SampleEntry::Avc1` of the given fields and no unknown boxes: the entry
/// of `SampleEntryParams::Avc1` with what they were built from.
#[verifier::external_body]
pub(crate) fn to_avc1_entry(visual: Built<VisualSampleEntryFields, VisualFields>, avcc: Built<AvccBox, AvcConfig>) -> (r: OutputEntry)
    ensures
        r.params() == (SampleEntryParams::Avc1 { visual: visual.from(), avcc: avcc.from() }),
{
    let params = Ghost(SampleEntryParams::Avc1 { visual: visual.from(), avcc: avcc.from() });
    let entry = SampleEntry::Avc1(Avc1Box { visual: visual.value, avcc_box: avcc.value, unknown_boxes: Vec::new() });
    OutputEntry { entry, params }
}

/// `HvccNalUintArray` literal holding the fields of `a`.
#[verifier::external_body]
pub(crate) fn to_hvcc_array(a: &HevcNaluArray) -> (r: Built<HvccNalUintArray, HevcNaluArray>)
    requires
        hevc_array_fits(*a),
    ensures
        r.from() == *a,
{
    let value = HvccNalUintArray {
        array_completeness: Uint::new(a.array_completeness),
        nal_unit_type: Uint::new(a.nal_unit_type),
        nalus: a.nalus.clone(),
    };
    Built { value, from: Ghost(*a) }
}

/// `HvccBox` literal holding the fields of `c` and the NAL unit arrays,
/// which were built from the arrays of `c`, in order.
#[verifier::external_body]
pub(crate) fn to_hvcc_box(c: &HevcConfig, arrays: Vec<Built<HvccNalUintArray, HevcNaluArray>>) -> (r: Built<HvccBox, HevcConfig>)
    requires
        hevc_fields_fit(*c),
        arrays@.len() == c.nalu_arrays@.len(),
        forall|i: int| 0 <= i < arrays@.len() ==> #[trigger] arrays@[i].from() == c.nalu_arrays@[i],
    ensures
        r.from() == *c,
{
    Built { value: HvccBox {
        general_profile_space: Uint::new(c.general_profile_space), general_tier_flag: Uint::new(c.general_tier_flag),
        general_profile_idc: Uint::new(c.general_profile_idc),
        general_profile_compatibility_flags: c.general_profile_compatibility_flags,
        general_constraint_indicator_flags: Uint::new(c.general_constraint_indicator_flags),
        general_level_idc: c.general_level_idc, avg_frame_rate: c.avg_frame_rate,
        min_spatial_segmentation_idc: Uint::new(c.min_spatial_segmentation_idc),
        parallelism_type: Uint::new(c.parallelism_type), chroma_format_idc: Uint::new(c.chroma_format_idc),
        bit_depth_luma_minus8: Uint::new(c.bit_depth_luma_minus8), bit_depth_chroma_minus8: Uint::new(c.bit_depth_chroma_minus8),
        constant_frame_rate: Uint::new(c.constant_frame_rate), num_temporal_layers: Uint::new(c.num_temporal_layers),
        temporal_id_nested: Uint::new(c.temporal_id_nested), length_size_minus_one: Uint::new(c.length_size_minus_one),
        nalu_arrays: arrays.into_iter().map(|a| a.value).collect(),
    }, from: Ghost(*c) }
}

/// `SampleEntry::Hev1` of the given fields and no unknown boxes: the entry
/// of `SampleEntryParams::Hev1` with what they were built from.
#[verifier::external_body]
pub(crate) fn to_hev1_entry(visual: Built<VisualSampleEntryFields, VisualFields>, hvcc: Built<HvccBox, HevcConfig>) -> (r: OutputEntry)
    ensures
        r.params() == (SampleEntryParams::Hev1 { visual: visual.from(), hvcc: hvcc.from() }),
{
    let params = Ghost(SampleEntryParams::Hev1 { visual: visual.from(), hvcc: hvcc.from() });
    let entry = SampleEntry::Hev1(Hev1Box { visual: visual.value, hvcc_box: hvcc.value, unknown_boxes: Vec::new() });
    OutputEntry { entry, params }
}

/// `Av1cBox` literal holding the fields of `c`.
#[verifier::external_body]
pub(crate) fn to_av1c_box(c: &Av1Config) -> (r: Built<Av1cBox, Av1Config>)
    requires
        av1_config_fits(*c),
    ensures
        r.from() == *c,
{
    let value = Av1cBox {
        seq_profile: Uint::new(c.seq_profile),
        seq_level_idx_0: Uint::new(c.seq_level_idx_0),
        seq_tier_0: Uint::new(c.seq_tier_0),
        high_bitdepth: Uint::new(c.high_bitdepth),
        twelve_bit: Uint::new(c.twelve_bit),
        monochrome: Uint::new(c.monochrome),
        chroma_subsampling_x: Uint::new(c.chroma_subsampling_x),
        chroma_subsampling_y: Uint::new(c.chroma_subsampling_y),
        chroma_sample_position: Uint::new(c.chroma_sample_position),
        initial_presentation_delay_minus_one: c.initial_presentation_delay_minus_one.map(Uint::new),
        config_obus: c.config_obus.clone(),
    };
    Built { value, from: Ghost(*c) }
}

/// `SampleEntry::Av01` of the given fields and no unknown boxes: the entry
/// of `SampleEntryParams::Av01` with what they were built from.
#[verifier::external_body]
pub(crate) fn to_av01_entry(visual: Built<VisualSampleEntryFields, VisualFields>, av1c: Built<Av1cBox, Av1Config>) -> (r: OutputEntry)
    ensures
        r.params() == (SampleEntryParams::Av01 { visual: visual.from(), av1c: av1c.from() }),
{
    let params = Ghost(SampleEntryParams::Av01 { visual: visual.from(), av1c: av1c.from() });
    let entry = SampleEntry::Av01(Av01Box { visual: visual.value, av1c_box: av1c.value, unknown_boxes: Vec::new() });
    OutputEntry { entry, params }
}

/// `DecoderConfigDescriptor` literal holding the decoder fields of `c`, its
/// decoder-specific bytes wrapped as `DecoderSpecificInfo`.
#[verifier::external_body]
pub(crate) fn to_decoder_config(c: &EsConfig) -> (r: Built<DecoderConfigDescriptor, EsConfig>)
    requires
        decoder_config_fits(*c),
    ensures
        r.from() == *c,
{
    let value = DecoderConfigDescriptor {
        object_type_indication: c.object_type_indication,
        stream_type: Uint::new(c.stream_type),
        up_stream: Uint::new(c.up_stream),
        buffer_size_db: Uint::new(c.buffer_size_db),
        max_bitrate: c.max_bitrate,
        avg_bitrate: c.avg_bitrate,
        dec_specific_info: c.decoder_specific_info.clone().map(|payload| DecoderSpecificInfo { payload }),
    };
    Built { value, from: Ghost(*c) }
}

/// `SampleEntry::Mp4a` whose `esds` box holds an ES descriptor with the
/// id and priority of `es` and the decoder configuration built from it, no
/// optional fields, and no unknown boxes: the entry of
/// `SampleEntryParams::Mp4a` with what the parts were built from.
#[verifier::external_body]
pub(crate) fn to_mp4a_entry(
    audio: Built<AudioSampleEntryFields, AudioFields>,
    es_id: u16,
    stream_priority: u8,
    es: Built<DecoderConfigDescriptor, EsConfig>,
) -> (r: OutputEntry)
    requires
        stream_priority < 32,
        es_id == es.from().es_id,
        stream_priority == es.from().stream_priority,
    ensures
        r.params() == (SampleEntryParams::Mp4a { audio: audio.from(), es: es.from() }),
{
    let params = Ghost(SampleEntryParams::Mp4a { audio: audio.from(), es: es.from() });
    let es = EsDescriptor { es_id, stream_priority: Uint::new(stream_priority), depends_on_es_id: None,
        url_string: None, ocr_es_id: None, dec_config_descr: es.value, sl_config_descr: SlConfigDescriptor };
    let entry = SampleEntry::Mp4a(Mp4aBox { audio: audio.value, esds_box: EsdsBox { es }, unknown_boxes: Vec::new() });
    OutputEntry { entry, params }
}

/// `SampleEntry::Opus` with a `dOps` box holding the fields of `d` and no
/// unknown boxes: the entry of `SampleEntryParams::Opus` with what the
/// parts were built from.
#[verifier::external_body]
pub(crate) fn to_opus_entry(audio: Built<AudioSampleEntryFields, AudioFields>, d: OpusConfig) -> (r: OutputEntry)
    ensures
        r.params() == (SampleEntryParams::Opus { audio: audio.from(), dops: d }),
{
    let params = Ghost(SampleEntryParams::Opus { audio: audio.from(), dops: d });
    let dops_box = DopsBox { output_channel_count: d.output_channel_count, pre_skip: d.pre_skip,
        input_sample_rate: d.input_sample_rate, output_gain: d.output_gain };
    let entry = SampleEntry::Opus(OpusBox { audio: audio.value, dops_box, unknown_boxes: Vec::new() });
    OutputEntry { entry, params }
}

/// The parameters of an optional entry.
pub open spec fn entry_params(e: Option<OutputEntry>) -> Option<SampleEntryParams> {
    match e {
        Some(x) => Some(x.params()),
        None => None,
    }
}

/// The MP4 library's file muxer with a model of its state: the file
/// position the next sample's data must start at, the timescale of each
/// track it has, whether it was finalized, and the samples it accepted,
/// each with the parameters of the sample entry it came with.
/// Only the trusted items below change it.
pub struct FileMuxer {
    inner: Mp4FileMuxer,
    position: Ghost<nat>,
    timescales: Ghost<Map<MediaKind, u32>>,
    finalized: Ghost<bool>,
    log: Ghost<Seq<(AppendedSample, Option<SampleEntryParams>)>>,
}

impl FileMuxer {
    /// Where the data of the next sample must start.
    pub closed spec fn position(&self) -> nat {
        self.position@
    }

    /// The timescale of each track that has a sample.
    pub closed spec fn timescales(&self) -> Map<MediaKind, u32> {
        self.timescales@
    }

    /// Whether `finalize` succeeded.
    pub closed spec fn finalized(&self) -> bool {
        self.finalized@
    }

    /// The samples accepted so far, in order, with their entries.
    pub closed spec fn log(&self) -> Seq<(AppendedSample, Option<SampleEntryParams>)> {
        self.log@
    }
}

/// `Mp4FileMuxer::append_sample()` accepts the sample `s` of a video or
/// audio track (source: its checks in order): not yet finalized, the data
/// starts at the current position, its size fits 32 bits, the track
/// already has a sample or this one brings a sample entry, the new
/// position fits 64 bits, and the timescale is the track's.
pub open spec fn append_accepted(pos: nat, timescales: Map<MediaKind, u32>, finalized: bool, s: AppendedSample) -> bool {
    &&& !finalized
    &&& s.data_offset == pos
    &&& s.data_size <= u32::MAX
    &&& s.has_entry || timescales.contains_key(s.kind)
    &&& pos + s.data_size <= u64::MAX
    &&& timescales.contains_key(s.kind) ==> timescales[s.kind] == s.timescale
}

/// The bytes a file starts with under `Mp4FileMuxer::new()` (default
/// options): an `ftyp` box (major brand `isom`, minor version 0,
/// compatible brands `isom`, `iso2`, `mp41`), a `free` box of 64 zero
/// bytes (no room reserved for `moov`), and an `mdat` header with a
/// 64-bit size field left 0.
pub open spec fn initial_box_bytes() -> Seq<u8> {
    let isom = seq![0x69u8, 0x73, 0x6f, 0x6d];
    let ftyp = seq![0u8, 0, 0, 28, 0x66, 0x74, 0x79, 0x70] + isom + seq![0u8, 0, 0, 0] + isom + seq![
        0x69u8,
        0x73,
        0x6f,
        0x32,
        0x6d,
        0x70,
        0x34,
        0x31,
    ];
    let free = seq![0u8, 0, 0, 72, 0x66, 0x72, 0x65, 0x65] + Seq::new(64, |i: int| 0u8);
    let mdat = seq![0u8, 0, 0, 1, 0x6d, 0x64, 0x61, 0x74] + Seq::new(8, |i: int| 0u8);
    ftyp + free + mdat
}

/// `Mp4FileMuxer::new()`. With the default options it only encodes the
/// initial boxes, so it succeeds; the next sample's data starts right
/// after them.
#[verifier::external_body]
pub(crate) fn new_muxer() -> (r: Result<FileMuxer, MuxError>)
    ensures
        r is Ok,
        r matches Ok(m) ==> m.timescales().dom().is_empty() && m.position() == initial_box_bytes().len(),
        r matches Ok(m) ==> !m.finalized() && m.log().len() == 0,
{
    let inner = Mp4FileMuxer::new()?;
    let n = inner.initial_boxes_bytes().len();
    Ok(FileMuxer { inner, position: Ghost(n as nat), timescales: Ghost(Map::empty()), finalized: Ghost(false),
        log: Ghost(Seq::empty()) })
}

/// `Mp4FileMuxer::initial_boxes_bytes()`, copied: the initial boxes, which
/// only the constructor sets.
#[verifier::external_body]
pub(crate) fn muxer_initial_bytes(m: &FileMuxer) -> (r: Vec<u8>)
    ensures
        r@ == initial_box_bytes(),
{
    m.inner.initial_boxes_bytes().to_vec()
}

/// `Mp4FileMuxer::append_sample()` for the sample `s` of a video or audio
/// track with `sample_entry`: `Ok` exactly when `append_accepted`; then the
/// position moves past the data, the track takes the timescale and the
/// sample is logged with its entry; on an error nothing changes (as its
/// doc says).
#[verifier::external_body]
pub(crate) fn muxer_append(m: &mut FileMuxer, s: AppendedSample, sample_entry: Option<OutputEntry>) -> (r: Result<(), MuxError>)
    requires
        s.timescale > 0,
        s.kind != MediaKind::Subtitle,
        s.has_entry == sample_entry is Some,
    ensures
        r is Ok <==> append_accepted(old(m).position(), old(m).timescales(), old(m).finalized(), s),
        r is Ok ==> final(m).position() == old(m).position() + s.data_size && final(m).timescales()
            == old(m).timescales().insert(s.kind, s.timescale) && final(m).log() == old(m).log().push(
            (s, entry_params(sample_entry)),
        ) && final(m).finalized() == old(m).finalized(),
        r is Err ==> final(m).position() == old(m).position() && final(m).timescales() == old(m).timescales()
            && final(m).log() == old(m).log() && final(m).finalized() == old(m).finalized(),
{
    let track_kind = if s.kind == MediaKind::Video { TrackKind::Video } else { TrackKind::Audio };
    let timescale = core::num::NonZeroU32::new(s.timescale).unwrap();
    m.inner.append_sample(&MuxSample { track_kind, sample_entry: sample_entry.map(|e| e.entry), keyframe: s.keyframe,
        timescale, duration: s.duration, composition_time_offset: s.composition_time_offset,
        data_offset: s.data_offset, data_size: s.data_size })
}

/// Some video sample was accepted and none of the video samples is a
/// keyframe.
pub open spec fn video_lacks_sync(log: Seq<(AppendedSample, Option<SampleEntryParams>)>) -> bool {
    &&& exists|i: int| 0 <= i < log.len() && #[trigger] log[i].0.kind == MediaKind::Video
    &&& forall|i: int| 0 <= i < log.len() && #[trigger] log[i].0.kind == MediaKind::Video ==> !log[i].0.keyframe
}

/// What `Mp4FileMuxer::finalize()` gives on a muxer made by `new()` that
/// accepted the samples of `log`, in order, each with the sample entry
/// built from its parameters: the (file offset, bytes) pairs that complete
/// the file, or `None` for an error.
pub uninterp spec fn mp4_finalized(log: Seq<(AppendedSample, Option<SampleEntryParams>)>) -> Option<Seq<(u64, Seq<u8>)>>;

/// `Mp4FileMuxer::finalize()`: the error when already finalized; else the
/// pairs `mp4_finalized` names for the accepted samples, copied, and the
/// muxer is finalized. As its doc says, a video track without a sync
/// sample is an error. With at most `u32::MAX` samples the sum of their
/// durations cannot overflow.
#[verifier::external_body]
pub(crate) fn muxer_finalize(m: &mut FileMuxer) -> (r: Result<Vec<(u64, Vec<u8>)>, MuxError>)
    requires
        old(m).log().len() <= u32::MAX,
    ensures
        old(m).finalized() ==> r is Err,
        !old(m).finalized() ==> match mp4_finalized(old(m).log()) {
            Some(p) => r matches Ok(v) && v.deep_view() == p,
            None => r is Err,
        },
        video_lacks_sync(old(m).log()) ==> r is Err,
        final(m).finalized() == (old(m).finalized() || r is Ok),
        final(m).position() == old(m).position(),
        final(m).timescales() == old(m).timescales(),
        final(m).log() == old(m).log(),
{
    let finalized = m.inner.finalize()?;
    Ok(finalized.offset_and_bytes_pairs().map(|(offset, bytes)| (offset, bytes.to_vec())).collect())
}

/// The `Display` text of a muxer error. Nothing is claimed of the result.
#[verifier::external_body]
pub(crate) fn mux_error_text(e: &MuxError) -> (r: String) {
    format!("{e}")
}

/// The MP4 library's file demuxer, with the file it was given (none yet,
/// or the whole file at once) and the number of `next_sample` calls made
/// since. Only the trusted items below change it.
pub struct FileDemuxer {
    inner: Mp4FileDemuxer,
    fed: Ghost<Option<Seq<u8>>>,
    taken: Ghost<nat>,
}

impl FileDemuxer {
    /// The file the demuxer was given, if any.
    pub closed spec fn fed(&self) -> Option<Seq<u8>> {
        self.fed@
    }

    /// Number of `next_sample` calls made on it.
    pub closed spec fn taken(&self) -> nat {
        self.taken@
    }
}

/// The tracks (kind, timescale) that `Mp4FileDemuxer::tracks()` reports
/// once the whole file `data` was given to `handle_input` at position 0;
/// `None` when it reports an error.
pub uninterp spec fn mp4_tracks(data: Seq<u8>) -> Option<Seq<(MediaKind, u32)>>;

/// What call number `k` (from 0) of `Mp4FileDemuxer::next_sample()` gives
/// once the whole file `data` was given to `handle_input` at position 0.
pub uninterp spec fn mp4_sample(data: Seq<u8>, k: nat) -> DemuxStep;

/// `Mp4FileDemuxer::new()`: a demuxer that has been given no input.
#[verifier::external_body]
pub(crate) fn new_demuxer() -> (r: FileDemuxer)
    ensures
        r.fed() is None,
        r.taken() == 0,
{
    FileDemuxer { inner: Mp4FileDemuxer::new(), fed: Ghost(None), taken: Ghost(0) }
}

/// `Mp4FileDemuxer::handle_input()` with the whole file as input at
/// position 0.
#[verifier::external_body]
pub(crate) fn demuxer_handle_whole_file(d: &mut FileDemuxer, data: &[u8])
    requires
        old(d).fed() is None,
    ensures
        final(d).fed() == Some(data@),
        final(d).taken() == old(d).taken(),
{
    d.inner.handle_input(Input { position: 0, data });
    d.fed = Ghost(Some(data@));
}

/// `Mp4FileDemuxer::tracks()`, each track as its kind and timescale: the
/// tracks named by `mp4_tracks`, or the error when there are none. A
/// timescale is a `NonZeroU32` there, so it is positive.
#[verifier::external_body]
pub(crate) fn demuxer_tracks(d: &mut FileDemuxer) -> (r: Result<Vec<(MediaKind, u32)>, DemuxError>)
    requires
        old(d).fed() is Some,
    ensures
        final(d).fed() == old(d).fed(),
        final(d).taken() == old(d).taken(),
        match mp4_tracks(old(d).fed()->0) {
            Some(t) => r matches Ok(v) && v@ == t,
            None => r is Err,
        },
        r matches Ok(v) ==> forall|i: int| 0 <= i < v@.len() ==> #[trigger] v@[i].1 > 0,
{
    let kind = |k: TrackKind| match k {
        TrackKind::Audio => MediaKind::Audio,
        TrackKind::Video => MediaKind::Video,
        TrackKind::Subtitle => MediaKind::Subtitle,
    };
    Ok(d.inner.tracks()?.iter().map(|t| (kind(t.kind), t.timescale.get())).collect())
}

/// `Mp4FileDemuxer::next_sample()`: the step that `mp4_sample` names for
/// this call, the sample's fields copied into a `SampleInfo` and its entry
/// cloned, marked as the entry of this call on this file.
#[verifier::external_body]
pub(crate) fn demuxer_next_sample(d: &mut FileDemuxer) -> (r: Result<Option<DemuxedSample>, DemuxError>)
    requires
        old(d).fed() is Some,
    ensures
        final(d).fed() == old(d).fed(),
        final(d).taken() == old(d).taken() + 1,
        match mp4_sample(old(d).fed()->0, old(d).taken()) {
            DemuxStep::Sample(s) => r matches Ok(Some(x)) && x.info == s && x.sample_entry is Some == s.has_entry
                && (x.sample_entry matches Some(e) ==> e.origin() == (old(d).fed()->0, old(d).taken())),
            DemuxStep::End => r matches Ok(None),
            DemuxStep::Failed => r is Err,
        },
{
    let origin = Ghost((d.fed@->0, d.taken@));
    d.taken = Ghost(d.taken@ + 1);
    let Some(s) = d.inner.next_sample()? else { return Ok(None) };
    let kind = match s.track.kind {
        TrackKind::Audio => MediaKind::Audio,
        TrackKind::Video => MediaKind::Video,
        TrackKind::Subtitle => MediaKind::Subtitle,
    };
    let info = SampleInfo { kind, keyframe: s.keyframe, timestamp: s.timestamp, duration: s.duration,
        data_offset: s.data_offset, data_size: s.data_size, composition_time_offset: s.composition_time_offset,
        has_entry: s.sample_entry.is_some() };
    Ok(Some(DemuxedSample { info, sample_entry: s.sample_entry.map(|e| InputEntry { entry: e.clone(), origin }) }))
}

/// A sample entry read from an input file, with the file and the
/// `next_sample` call number it came with.
pub struct InputEntry {
    entry: SampleEntry,
    origin: Ghost<(Seq<u8>, nat)>,
}

impl InputEntry {
    /// The file and the `next_sample` call number the entry came with.
    pub closed spec fn origin(&self) -> (Seq<u8>, nat) {
        self.origin@
    }
}

/// Which box the entry of call `k` on the file `data` is, as
/// `entry_codec` reports it.
pub uninterp spec fn mp4_entry_codec(data: Seq<u8>, k: nat) -> EntryCodec;

/// `SampleEntry::video_resolution()` of the entry of call `k` on `data`.
pub uninterp spec fn mp4_entry_resolution(data: Seq<u8>, k: nat) -> Option<(u16, u16)>;

/// `SampleEntry::audio_sample_rate()` of the entry of call `k` on `data`.
pub uninterp spec fn mp4_entry_sample_rate(data: Seq<u8>, k: nat) -> Option<u16>;

/// `SampleEntry::audio_channel_count()` of the entry of call `k` on `data`.
pub uninterp spec fn mp4_entry_channel_count(data: Seq<u8>, k: nat) -> Option<u8>;

/// The SPS and PPS lists of the entry of call `k` on `data`, as
/// `entry_avc_parameter_sets` reads them.
pub uninterp spec fn mp4_entry_avc_parameter_sets(data: Seq<u8>, k: nat) -> (Seq<Seq<u8>>, Seq<Seq<u8>>);

/// The (type, units) NAL unit arrays of the entry of call `k` on `data`,
/// as `entry_hevc_nalu_arrays` reads them.
pub uninterp spec fn mp4_entry_hevc_nalu_arrays(data: Seq<u8>, k: nat) -> Seq<(u8, Seq<Seq<u8>>)>;

/// Which box a sample entry is, as this crate's `EntryCodec` (`Other` for
/// the boxes this crate does not decode): the value `mp4_entry_codec`
/// names for the entry's origin.
#[verifier::external_body]
pub(crate) fn entry_codec(e: &InputEntry) -> (r: EntryCodec)
    ensures
        r == mp4_entry_codec(e.origin().0, e.origin().1),
{
    match &e.entry {
        SampleEntry::Avc1(_) => EntryCodec::Avc1,
        SampleEntry::Hev1(_) => EntryCodec::Hev1,
        SampleEntry::Hvc1(_) => EntryCodec::Hvc1,
        SampleEntry::Av01(_) => EntryCodec::Av01,
        SampleEntry::Mp4a(_) => EntryCodec::Mp4a,
        SampleEntry::Opus(_) => EntryCodec::Opus,
        _ => EntryCodec::Other,
    }
}

/// `SampleEntry::video_resolution()`: the value `mp4_entry_resolution`
/// names for the entry's origin.
#[verifier::external_body]
pub(crate) fn entry_video_resolution(e: &InputEntry) -> (r: Option<(u16, u16)>)
    ensures
        r == mp4_entry_resolution(e.origin().0, e.origin().1),
{
    e.entry.video_resolution()
}

/// `SampleEntry::audio_sample_rate()`: the value `mp4_entry_sample_rate`
/// names for the entry's origin.
#[verifier::external_body]
pub(crate) fn entry_audio_sample_rate(e: &InputEntry) -> (r: Option<u16>)
    ensures
        r == mp4_entry_sample_rate(e.origin().0, e.origin().1),
{
    e.entry.audio_sample_rate()
}

/// `SampleEntry::audio_channel_count()`: the value
/// `mp4_entry_channel_count` names for the entry's origin.
#[verifier::external_body]
pub(crate) fn entry_audio_channel_count(e: &InputEntry) -> (r: Option<u8>)
    ensures
        r == mp4_entry_channel_count(e.origin().0, e.origin().1),
{
    e.entry.audio_channel_count()
}

/// The SPS and PPS lists of an `avc1` entry's `avcC` box, copied (empty
/// lists for other entries): the lists `mp4_entry_avc_parameter_sets`
/// names for the entry's origin.
#[verifier::external_body]
pub(crate) fn entry_avc_parameter_sets(e: &InputEntry) -> (r: (Vec<Vec<u8>>, Vec<Vec<u8>>))
    ensures
        (r.0.deep_view(), r.1.deep_view()) == mp4_entry_avc_parameter_sets(e.origin().0, e.origin().1),
{
    match &e.entry {
        SampleEntry::Avc1(b) => (b.avcc_box.sps_list.clone(), b.avcc_box.pps_list.clone()),
        _ => (Vec::new(), Vec::new()),
    }
}

/// The NAL unit arrays (type, units) of an `hev1` or `hvc1` entry's `hvcC`
/// box, copied (none for other entries): the arrays
/// `mp4_entry_hevc_nalu_arrays` names for the entry's origin.
#[verifier::external_body]
pub(crate) fn entry_hevc_nalu_arrays(e: &InputEntry) -> (r: Vec<(u8, Vec<Vec<u8>>)>)
    ensures
        r.deep_view() == mp4_entry_hevc_nalu_arrays(e.origin().0, e.origin().1),
{
    let hvcc = match &e.entry {
        SampleEntry::Hev1(b) => &b.hvcc_box,
        SampleEntry::Hvc1(b) => &b.hvcc_box,
        _ => return Vec::new(),
    };
    hvcc.nalu_arrays.iter().map(|a| (a.nal_unit_type.get(), a.nalus.clone())).collect()
}

/// The `Display` text of a demuxer error. Nothing is claimed of the result.
#[verifier::external_body]
pub(crate) fn demux_error_text(e: &DemuxError) -> (r: String) {
    format!("{e}")
}

/// The `Debug` text of a box codec error. Nothing is claimed of the result.
#[verifier::external_body]
pub(crate) fn box_codec_error_text(e: &BoxCodecError) -> (r: String) {
    format!("{e:?}")
}

} // verus!
