//! Sample entries of the output MP4 (ISO/IEC 14496-12/-15, RFC 7845): the
//! codec configuration records that tell a player how to decode each track.
//! They are built here as plain values and handed to the MP4 library only
//! when the file is written.
use vstd::prelude::*;

verus! {

/// The width and height stored in a visual sample entry; the other fields
/// take the MP4 library's defaults.
#[derive(Debug, Clone, Copy, PartialEq, Eq, Structural)]
pub struct VisualFields {
    pub width: u16,
    pub height: u16,
}

/// The channel count and integral sample rate stored in an audio sample
/// entry; the other fields take the MP4 library's defaults.
#[derive(Debug, Clone, Copy, PartialEq, Eq, Structural)]
pub struct AudioFields {
    pub channel_count: u16,
    pub sample_rate: u16,
}

/// AVCDecoderConfigurationRecord (`avcC`).
#[derive(Debug)]
pub struct AvcConfig {
    pub avc_profile_indication: u8,
    pub profile_compatibility: u8,
    pub avc_level_indication: u8,
    pub length_size_minus_one: u8,
    pub sps_list: Vec<Vec<u8>>,
    pub pps_list: Vec<Vec<u8>>,
    pub chroma_format: Option<u8>,
    pub bit_depth_luma_minus8: Option<u8>,
    pub bit_depth_chroma_minus8: Option<u8>,
    pub sps_ext_list: Vec<Vec<u8>>,
}

/// One array of NAL units of one type in an `hvcC` record.
#[derive(Debug)]
pub struct HevcNaluArray {
    pub array_completeness: u8,
    pub nal_unit_type: u8,
    pub nalus: Vec<Vec<u8>>,
}

/// HEVCDecoderConfigurationRecord (`hvcC`).
#[derive(Debug)]
pub struct HevcConfig {
    pub general_profile_space: u8,
    pub general_tier_flag: u8,
    pub general_profile_idc: u8,
    pub general_profile_compatibility_flags: u32,
    pub general_constraint_indicator_flags: u64,
    pub general_level_idc: u8,
    pub min_spatial_segmentation_idc: u16,
    pub parallelism_type: u8,
    pub chroma_format_idc: u8,
    pub bit_depth_luma_minus8: u8,
    pub bit_depth_chroma_minus8: u8,
    pub avg_frame_rate: u16,
    pub constant_frame_rate: u8,
    pub num_temporal_layers: u8,
    pub temporal_id_nested: u8,
    pub length_size_minus_one: u8,
    pub nalu_arrays: Vec<HevcNaluArray>,
}

/// AV1CodecConfigurationRecord (`av1C`).
#[derive(Debug)]
pub struct Av1Config {
    pub seq_profile: u8,
    pub seq_level_idx_0: u8,
    pub seq_tier_0: u8,
    pub high_bitdepth: u8,
    pub twelve_bit: u8,
    pub monochrome: u8,
    pub chroma_subsampling_x: u8,
    pub chroma_subsampling_y: u8,
    pub chroma_sample_position: u8,
    pub initial_presentation_delay_minus_one: Option<u8>,
    pub config_obus: Vec<u8>,
}

/// ES descriptor of an `esds` box (MPEG-4 audio).
#[derive(Debug)]
pub struct EsConfig {
    pub es_id: u16,
    pub stream_priority: u8,
    pub object_type_indication: u8,
    pub stream_type: u8,
    pub up_stream: u8,
    pub buffer_size_db: u32,
    pub max_bitrate: u32,
    pub avg_bitrate: u32,
    pub decoder_specific_info: Option<Vec<u8>>,
}

/// OpusSpecificBox (`dOps`).
#[derive(Debug, Clone, Copy, PartialEq, Eq, Structural)]
pub struct OpusConfig {
    pub output_channel_count: u8,
    pub pre_skip: u16,
    pub input_sample_rate: u32,
    pub output_gain: i16,
}

/// A sample entry of the output file, by codec.
#[derive(Debug)]
pub enum SampleEntryParams {
    Avc1 { visual: VisualFields, avcc: AvcConfig },
    Hev1 { visual: VisualFields, hvcc: HevcConfig },
    Av01 { visual: VisualFields, av1c: Av1Config },
    Mp4a { audio: AudioFields, es: EsConfig },
    Opus { audio: AudioFields, dops: OpusConfig },
}

/// Each field of an `avcC` record fits the bits the record gives it.
pub open spec fn avc_config_fits(c: AvcConfig) -> bool {
    &&& c.length_size_minus_one < 4
    &&& c.chroma_format is Some ==> c.chroma_format->0 < 4
    &&& c.bit_depth_luma_minus8 is Some ==> c.bit_depth_luma_minus8->0 < 8
    &&& c.bit_depth_chroma_minus8 is Some ==> c.bit_depth_chroma_minus8->0 < 8
}

/// The completeness flag and NAL unit type of an `hvcC` array fit their
/// 1 and 6 bits.
pub open spec fn hevc_array_fits(a: HevcNaluArray) -> bool {
    a.array_completeness < 2 && a.nal_unit_type < 64
}

/// Each bit field of an `hvcC` record, its arrays aside, fits its bits.
pub open spec fn hevc_fields_fit(c: HevcConfig) -> bool {
    &&& c.general_profile_space < 4
    &&& c.general_tier_flag < 2
    &&& c.general_profile_idc < 32
    &&& c.general_constraint_indicator_flags < 0x1_0000_0000_0000
    &&& c.min_spatial_segmentation_idc < 4096
    &&& c.parallelism_type < 4
    &&& c.chroma_format_idc < 4
    &&& c.bit_depth_luma_minus8 < 8
    &&& c.bit_depth_chroma_minus8 < 8
    &&& c.constant_frame_rate < 4
    &&& c.num_temporal_layers < 8
    &&& c.temporal_id_nested < 2
    &&& c.length_size_minus_one < 4
}

/// Each field of an `hvcC` record, its arrays included, fits its bits.
pub open spec fn hevc_config_fits(c: HevcConfig) -> bool {
    &&& hevc_fields_fit(c)
    &&& forall|i: int| 0 <= i < c.nalu_arrays@.len() ==> hevc_array_fits(#[trigger] c.nalu_arrays@[i])
}

/// Each field of an `av1C` record fits the bits the record gives it.
pub open spec fn av1_config_fits(c: Av1Config) -> bool {
    &&& c.seq_profile < 8
    &&& c.seq_level_idx_0 < 32
    &&& c.seq_tier_0 < 2
    &&& c.high_bitdepth < 2
    &&& c.twelve_bit < 2
    &&& c.monochrome < 2
    &&& c.chroma_subsampling_x < 2
    &&& c.chroma_subsampling_y < 2
    &&& c.chroma_sample_position < 4
    &&& c.initial_presentation_delay_minus_one is Some ==> c.initial_presentation_delay_minus_one->0 < 16
}

/// The decoder configuration fields of an ES descriptor fit their bits.
pub open spec fn decoder_config_fits(e: EsConfig) -> bool {
    e.stream_type < 64 && e.up_stream < 2 && e.buffer_size_db < 0x100_0000
}

/// Each bit field of a sample entry fits the bits the MP4 format gives it
/// (the MP4 library does not check this and would corrupt the fields
/// around a value that does not fit).
pub open spec fn entry_fits(p: SampleEntryParams) -> bool {
    match p {
        SampleEntryParams::Avc1 { avcc, .. } => avc_config_fits(avcc),
        SampleEntryParams::Hev1 { hvcc, .. } => hevc_config_fits(hvcc),
        SampleEntryParams::Av01 { av1c, .. } => av1_config_fits(av1c),
        SampleEntryParams::Mp4a { es, .. } => decoder_config_fits(es) && es.stream_priority < 32,
        SampleEntryParams::Opus { .. } => true,
    }
}

/// Whether every array fits its bits (see `hevc_array_fits`).
fn hevc_arrays_fit(arrays: &Vec<HevcNaluArray>) -> (r: bool)
    ensures
        r == forall|i: int| 0 <= i < arrays@.len() ==> hevc_array_fits(#[trigger] arrays@[i]),
{
    let mut i: usize = 0;
    while i < arrays.len()
        invariant
            i <= arrays@.len(),
            forall|j: int| 0 <= j < i ==> hevc_array_fits(#[trigger] arrays@[j]),
        decreases arrays@.len() - i,
    {
        if arrays[i].array_completeness >= 2 || arrays[i].nal_unit_type >= 64 {
            assert(!hevc_array_fits(arrays@[i as int]));
            return false;
        }
        i = i + 1;
    }
    true
}

/// Whether each bit field of `p` fits its bits (see `entry_fits`).
pub fn sample_entry_fits(p: &SampleEntryParams) -> (r: bool)
    ensures
        r == entry_fits(*p),
{
    match p {
        SampleEntryParams::Avc1 { avcc: c, .. } => {
            c.length_size_minus_one < 4 && match c.chroma_format {
                Some(v) => v < 4,
                None => true,
            } && match c.bit_depth_luma_minus8 {
                Some(v) => v < 8,
                None => true,
            } && match c.bit_depth_chroma_minus8 {
                Some(v) => v < 8,
                None => true,
            }
        },
        SampleEntryParams::Hev1 { hvcc: c, .. } => {
            let fields = c.general_profile_space < 4 && c.general_tier_flag < 2 && c.general_profile_idc < 32
                && c.general_constraint_indicator_flags < 0x1_0000_0000_0000 && c.min_spatial_segmentation_idc
                < 4096 && c.parallelism_type < 4 && c.chroma_format_idc < 4 && c.bit_depth_luma_minus8 < 8
                && c.bit_depth_chroma_minus8 < 8 && c.constant_frame_rate < 4 && c.num_temporal_layers < 8
                && c.temporal_id_nested < 2 && c.length_size_minus_one < 4;
            if !fields {
                return false;
            }
            hevc_arrays_fit(&c.nalu_arrays)
        },
        SampleEntryParams::Av01 { av1c: c, .. } => {
            c.seq_profile < 8 && c.seq_level_idx_0 < 32 && c.seq_tier_0 < 2 && c.high_bitdepth < 2
                && c.twelve_bit < 2 && c.monochrome < 2 && c.chroma_subsampling_x < 2 && c.chroma_subsampling_y < 2
                && c.chroma_sample_position < 4 && match c.initial_presentation_delay_minus_one {
                Some(v) => v < 16,
                None => true,
            }
        },
        SampleEntryParams::Mp4a { es, .. } => {
            es.stream_type < 64 && es.up_stream < 2 && es.buffer_size_db < 0x100_0000 && es.stream_priority < 32
        },
        SampleEntryParams::Opus { .. } => true,
    }
}

/// ISO/IEC 14496-3 samplingFrequencyIndex of a sample rate; 15 (escape)
/// for rates outside the table.
pub open spec fn spec_sampling_frequency_index(sample_rate: u32) -> u8 {
    if sample_rate == 96000 {
        0
    } else if sample_rate == 88200 {
        1
    } else if sample_rate == 64000 {
        2
    } else if sample_rate == 48000 {
        3
    } else if sample_rate == 44100 {
        4
    } else if sample_rate == 32000 {
        5
    } else if sample_rate == 24000 {
        6
    } else if sample_rate == 22050 {
        7
    } else if sample_rate == 16000 {
        8
    } else if sample_rate == 12000 {
        9
    } else if sample_rate == 11025 {
        10
    } else if sample_rate == 8000 {
        11
    } else if sample_rate == 7350 {
        12
    } else {
        15
    }
}

/// The sample rate that a samplingFrequencyIndex below 13 stands for.
pub open spec fn index_sample_rate(index: u8) -> u32 {
    if index == 0 {
        96000
    } else if index == 1 {
        88200
    } else if index == 2 {
        64000
    } else if index == 3 {
        48000
    } else if index == 4 {
        44100
    } else if index == 5 {
        32000
    } else if index == 6 {
        24000
    } else if index == 7 {
        22050
    } else if index == 8 {
        16000
    } else if index == 9 {
        12000
    } else if index == 10 {
        11025
    } else if index == 11 {
        8000
    } else {
        7350
    }
}

/// samplingFrequencyIndex of `sample_rate` (15 when the rate has no index).
pub fn sampling_frequency_index(sample_rate: u32) -> (r: u8)
    ensures
        r == spec_sampling_frequency_index(sample_rate),
{
    match sample_rate {
        96000 => 0,
        88200 => 1,
        64000 => 2,
        48000 => 3,
        44100 => 4,
        32000 => 5,
        24000 => 6,
        22050 => 7,
        16000 => 8,
        12000 => 9,
        11025 => 10,
        8000 => 11,
        7350 => 12,
        _ => 15,
    }
}

/// A rate has an index below 13 exactly when it is one of the thirteen
/// tabled rates, and that index leads back to the same rate.
pub proof fn lemma_sampling_frequency_index_inverse(sample_rate: u32)
    ensures
        spec_sampling_frequency_index(sample_rate) == 15 || spec_sampling_frequency_index(
            sample_rate,
        ) < 13,
        spec_sampling_frequency_index(sample_rate) < 13 ==> index_sample_rate(
            spec_sampling_frequency_index(sample_rate),
        ) == sample_rate,
{
}

/// AudioObjectType of AAC Low Complexity.
pub open spec fn aac_lc_object_type() -> u8 {
    2
}

/// AudioSpecificConfig bytes for AAC-LC (ISO/IEC 14496-3 1.6.2.1), packed
/// bit by bit: object type 2 (5 bits), the frequency index (4 bits), at
/// the escape index 15 the sampling rate itself (24 bits), the channel
/// configuration (4 bits) and three zero bits (GASpecificConfig). Shifts
/// are those of `u8`, so channel bits past the field are dropped.
pub open spec fn spec_audio_specific_config(sample_rate: u32, channels: u8) -> Seq<u8> {
    let f = spec_sampling_frequency_index(sample_rate);
    if f < 15 {
        seq![(2u8 << 3u8) | (f >> 1u8), ((f & 1u8) << 7u8) | (channels << 3u8)]
    } else {
        seq![
            (2u8 << 3u8) | (15u8 >> 1u8),
            0x80u8 | (((sample_rate >> 17u32) & 0x7Fu32) as u8),
            ((sample_rate >> 9u32) & 0xFFu32) as u8,
            ((sample_rate >> 1u32) & 0xFFu32) as u8,
            (((sample_rate & 1u32) as u8) << 7u8) | (channels << 3u8),
        ]
    }
}

/// Builds the AAC-LC AudioSpecificConfig for a rate and channel count.
pub fn build_aac_audio_specific_config(sample_rate: u32, channels: u8) -> (r: Vec<u8>)
    ensures
        r@ == spec_audio_specific_config(sample_rate, channels),
{
    let f = sampling_frequency_index(sample_rate);
    if f < 15 {
        let byte1: u8 = (2u8 << 3u8) | (f >> 1u8);
        let byte2: u8 = ((f & 1u8) << 7u8) | (channels << 3u8);
        let mut v: Vec<u8> = Vec::new();
        v.push(byte1);
        v.push(byte2);
        assert(v@ =~= spec_audio_specific_config(sample_rate, channels));
        v
    } else {
        let mut v: Vec<u8> = Vec::new();
        v.push((2u8 << 3u8) | (15u8 >> 1u8));
        v.push(0x80u8 | (((sample_rate >> 17u32) & 0x7Fu32) as u8));
        v.push(((sample_rate >> 9u32) & 0xFFu32) as u8);
        v.push(((sample_rate >> 1u32) & 0xFFu32) as u8);
        v.push((((sample_rate & 1u32) as u8) << 7u8) | (channels << 3u8));
        assert(v@ =~= spec_audio_specific_config(sample_rate, channels));
        v
    }
}

/// For a tabled rate and a channel configuration that fits in 4 bits,
/// reading the two AudioSpecificConfig bytes back gives object type 2,
/// the rate's frequency index, and the channel count.
pub proof fn lemma_audio_specific_config_round_trip(sample_rate: u32, channels: u8)
    requires
        spec_sampling_frequency_index(sample_rate) < 15,
        channels < 16,
    ensures
        ({
            let asc = spec_audio_specific_config(sample_rate, channels);
            let f = spec_sampling_frequency_index(sample_rate);
            &&& asc.len() == 2
            &&& asc[0] >> 3u8 == aac_lc_object_type()
            &&& ((asc[0] & 7u8) << 1u8) | (asc[1] >> 7u8) == f
            &&& (asc[1] >> 3u8) & 15u8 == channels
            &&& asc[1] & 7u8 == 0
        }),
{
    let f = spec_sampling_frequency_index(sample_rate);
    assert(f < 13);
    let b0: u8 = (2u8 << 3u8) | (f >> 1u8);
    let b1: u8 = ((f & 1u8) << 7u8) | (channels << 3u8);
    assert(b0 >> 3u8 == 2u8 && ((b0 & 7u8) << 1u8) | (b1 >> 7u8) == f && (b1 >> 3u8) & 15u8
        == channels && b1 & 7u8 == 0u8) by (bit_vector)
        requires
            f < 13u8,
            channels < 16u8,
            b0 == (2u8 << 3u8) | (f >> 1u8),
            b1 == ((f & 1u8) << 7u8) | (channels << 3u8),
    ;
}

/// For a rate outside the table that fits in 24 bits, reading the five
/// AudioSpecificConfig bytes back gives object type 2, the escape index
/// 15, the rate itself, and the channel count.
pub proof fn lemma_audio_specific_config_escape_round_trip(sample_rate: u32, channels: u8)
    requires
        spec_sampling_frequency_index(sample_rate) == 15,
        sample_rate < 0x100_0000,
        channels < 16,
    ensures
        ({
            let a = spec_audio_specific_config(sample_rate, channels);
            &&& a.len() == 5
            &&& a[0] >> 3u8 == aac_lc_object_type()
            &&& ((a[0] & 7u8) << 1u8) | (a[1] >> 7u8) == 15u8
            &&& ((a[1] & 0x7Fu8) as u32) << 17u32 | (a[2] as u32) << 9u32 | (a[3] as u32) << 1u32 | (a[4]
                >> 7u8) as u32 == sample_rate
            &&& (a[4] >> 3u8) & 15u8 == channels
            &&& a[4] & 7u8 == 0
        }),
{
    let b0: u8 = (2u8 << 3u8) | (15u8 >> 1u8);
    let b1: u8 = 0x80u8 | (((sample_rate >> 17u32) & 0x7Fu32) as u8);
    let b2: u8 = ((sample_rate >> 9u32) & 0xFFu32) as u8;
    let b3: u8 = ((sample_rate >> 1u32) & 0xFFu32) as u8;
    let b4: u8 = (((sample_rate & 1u32) as u8) << 7u8) | (channels << 3u8);
    assert(b0 >> 3u8 == 2u8 && ((b0 & 7u8) << 1u8) | (b1 >> 7u8) == 15u8) by (bit_vector)
        requires
            b0 == (2u8 << 3u8) | (15u8 >> 1u8),
            b1 == 0x80u8 | (((sample_rate >> 17u32) & 0x7Fu32) as u8),
    ;
    assert(((b1 & 0x7Fu8) as u32) << 17u32 | (b2 as u32) << 9u32 | (b3 as u32) << 1u32 | (b4 >> 7u8) as u32
        == sample_rate && (b4 >> 3u8) & 15u8 == channels && b4 & 7u8 == 0u8) by (bit_vector)
        requires
            sample_rate < 0x100_0000u32,
            channels < 16u8,
            b1 == 0x80u8 | (((sample_rate >> 17u32) & 0x7Fu32) as u8),
            b2 == ((sample_rate >> 9u32) & 0xFFu32) as u8,
            b3 == ((sample_rate >> 1u32) & 0xFFu32) as u8,
            b4 == (((sample_rate & 1u32) as u8) << 7u8) | (channels << 3u8),
    ;
}

} // verus!

verus! {

/// Byte `i` of `s`, or `default` when `s` is shorter than `i + 1`.
pub open spec fn byte_or(s: Seq<u8>, i: int, default: u8) -> u8 {
    if i < s.len() {
        s[i]
    } else {
        default
    }
}

/// AVC profiles Baseline (66), Main (77) and Extended (88) store no chroma
/// format or bit depths in `avcC`; every other profile does.
pub open spec fn avc_profile_needs_ext(profile: u8) -> bool {
    !(profile == 66 || profile == 77 || profile == 88)
}

fn byte_at_or(s: &[u8], i: usize, default: u8) -> (r: u8)
    ensures
        r == byte_or(s@, i as int, default),
{
    if i < s.len() {
        s[i]
    } else {
        default
    }
}

/// The `avc1` entry built by `build_avc1_sample_entry`.
pub open spec fn is_avc1_entry(e: SampleEntryParams, sps: Seq<u8>, pps: Seq<u8>, width: u16, height: u16) -> bool {
    match e {
        SampleEntryParams::Avc1 { visual, avcc } => {
            let profile = byte_or(sps, 1, 66);
            let ext = avc_profile_needs_ext(profile);
            &&& visual == VisualFields { width, height }
            &&& avcc.avc_profile_indication == profile
            &&& avcc.profile_compatibility == byte_or(sps, 2, 0)
            &&& avcc.avc_level_indication == byte_or(sps, 3, 30)
            &&& avcc.length_size_minus_one == 3
            &&& avcc.sps_list.deep_view() == seq![sps]
            &&& avcc.pps_list.deep_view() == seq![pps]
            &&& avcc.chroma_format == (if ext { Some(1u8) } else { None })
            &&& avcc.bit_depth_luma_minus8 == (if ext { Some(0u8) } else { None })
            &&& avcc.bit_depth_chroma_minus8 == (if ext { Some(0u8) } else { None })
            &&& avcc.sps_ext_list.deep_view() == Seq::<Seq<u8>>::empty()
        },
        _ => false,
    }
}

fn single_list(b: &[u8]) -> (r: Vec<Vec<u8>>)
    ensures
        r.deep_view() == seq![b@],
{
    let mut r: Vec<Vec<u8>> = Vec::new();
    let v = vstd::slice::slice_to_vec(b);
    assert(v.deep_view() =~= b@);
    r.push(v);
    assert(r.deep_view() =~= seq![b@]);
    r
}

/// H.264 sample entry (`avc1`) with one SPS and one PPS (ISO/IEC 14496-15
/// 5.3.3): the SPS is a NAL unit whose first byte is the NAL header, so
/// profile, compatibility and level are its bytes 1, 2 and 3 (66, 0 and
/// 30 when the SPS is shorter), NAL lengths take 4 bytes,
/// and profiles other than 66/77/88 also record 4:2:0 chroma at 8 bits.
pub fn build_avc1_sample_entry(sps: &[u8], pps: &[u8], width: u16, height: u16) -> (r:
    SampleEntryParams)
    ensures
        entry_fits(r),
        is_avc1_entry(r, sps@, pps@, width, height),
{
    let profile = byte_at_or(sps, 1, 66);
    let compatibility = byte_at_or(sps, 2, 0);
    let level = byte_at_or(sps, 3, 30);
    let ext = !(profile == 66 || profile == 77 || profile == 88);
    let sps_ext_list: Vec<Vec<u8>> = Vec::new();
    assert(sps_ext_list.deep_view() =~= Seq::<Seq<u8>>::empty());
    SampleEntryParams::Avc1 {
        visual: VisualFields { width, height },
        avcc: AvcConfig {
            avc_profile_indication: profile,
            profile_compatibility: compatibility,
            avc_level_indication: level,
            length_size_minus_one: 3,
            sps_list: single_list(sps),
            pps_list: single_list(pps),
            chroma_format: if ext { Some(1) } else { None },
            bit_depth_luma_minus8: if ext { Some(0) } else { None },
            bit_depth_chroma_minus8: if ext { Some(0) } else { None },
            sps_ext_list,
        },
    }
}

/// The `hev1` entry built by `build_hev1_sample_entry`.
pub open spec fn is_hev1_entry(
    e: SampleEntryParams,
    vps: Seq<u8>,
    sps: Seq<u8>,
    pps: Seq<u8>,
    width: u16,
    height: u16,
) -> bool {
    match e {
        SampleEntryParams::Hev1 { visual, hvcc } => {
            &&& visual == VisualFields { width, height }
            &&& hvcc.general_profile_space == 0
            &&& hvcc.general_tier_flag == 0
            &&& hvcc.general_profile_idc == 1
            &&& hvcc.general_profile_compatibility_flags == 0x60000000
            &&& hvcc.general_constraint_indicator_flags == 0
            &&& hvcc.general_level_idc == 0
            &&& hvcc.min_spatial_segmentation_idc == 0
            &&& hvcc.parallelism_type == 0
            &&& hvcc.chroma_format_idc == 1
            &&& hvcc.bit_depth_luma_minus8 == 0
            &&& hvcc.bit_depth_chroma_minus8 == 0
            &&& hvcc.avg_frame_rate == 0
            &&& hvcc.constant_frame_rate == 0
            &&& hvcc.num_temporal_layers == 1
            &&& hvcc.temporal_id_nested == 1
            &&& hvcc.length_size_minus_one == 3
            &&& hvcc.nalu_arrays.len() == 3
            &&& hvcc.nalu_arrays[0].array_completeness == 0
            &&& hvcc.nalu_arrays[0].nal_unit_type == 32
            &&& hvcc.nalu_arrays[0].nalus.deep_view() == seq![vps]
            &&& hvcc.nalu_arrays[1].array_completeness == 0
            &&& hvcc.nalu_arrays[1].nal_unit_type == 33
            &&& hvcc.nalu_arrays[1].nalus.deep_view() == seq![sps]
            &&& hvcc.nalu_arrays[2].array_completeness == 0
            &&& hvcc.nalu_arrays[2].nal_unit_type == 34
            &&& hvcc.nalu_arrays[2].nalus.deep_view() == seq![pps]
        },
        _ => false,
    }
}

/// H.265 sample entry (`hev1`, ISO/IEC 14496-15 8.3.3): Main profile, 4:2:0
/// chroma at 8 bits, 4-byte NAL lengths, and one array each for the VPS
/// (NAL type 32), SPS (33) and PPS (34).
pub fn build_hev1_sample_entry(vps: &[u8], sps: &[u8], pps: &[u8], width: u16, height: u16) -> (r:
    SampleEntryParams)
    ensures
        entry_fits(r),
        is_hev1_entry(r, vps@, sps@, pps@, width, height),
{
    let mut arrays: Vec<HevcNaluArray> = Vec::new();
    arrays.push(HevcNaluArray { array_completeness: 0, nal_unit_type: 32, nalus: single_list(vps) });
    arrays.push(HevcNaluArray { array_completeness: 0, nal_unit_type: 33, nalus: single_list(sps) });
    arrays.push(HevcNaluArray { array_completeness: 0, nal_unit_type: 34, nalus: single_list(pps) });
    SampleEntryParams::Hev1 {
        visual: VisualFields { width, height },
        hvcc: HevcConfig {
            general_profile_space: 0,
            general_tier_flag: 0,
            general_profile_idc: 1,
            general_profile_compatibility_flags: 0x60000000,
            general_constraint_indicator_flags: 0,
            general_level_idc: 0,
            min_spatial_segmentation_idc: 0,
            parallelism_type: 0,
            chroma_format_idc: 1,
            bit_depth_luma_minus8: 0,
            bit_depth_chroma_minus8: 0,
            avg_frame_rate: 0,
            constant_frame_rate: 0,
            num_temporal_layers: 1,
            temporal_id_nested: 1,
            length_size_minus_one: 3,
            nalu_arrays: arrays,
        },
    }
}

/// The `av01` entry built by `build_av01_sample_entry`.
pub open spec fn is_av01_entry(e: SampleEntryParams, extra_data: Seq<u8>, width: u16, height: u16) -> bool {
    match e {
        SampleEntryParams::Av01 { visual, av1c } => {
            &&& visual == VisualFields { width, height }
            &&& av1c.seq_profile == 0
            &&& av1c.seq_level_idx_0 == 0
            &&& av1c.seq_tier_0 == 0
            &&& av1c.high_bitdepth == 0
            &&& av1c.twelve_bit == 0
            &&& av1c.monochrome == 0
            &&& av1c.chroma_subsampling_x == 1
            &&& av1c.chroma_subsampling_y == 1
            &&& av1c.chroma_sample_position == 0
            &&& av1c.initial_presentation_delay_minus_one is None
            &&& av1c.config_obus@ == extra_data
        },
        _ => false,
    }
}

/// AV1 sample entry (`av01`): profile 0, level 0, 4:2:0 chroma, and the
/// encoder's sequence header OBUs stored as the configuration OBUs.
pub fn build_av01_sample_entry(extra_data: &[u8], width: u16, height: u16) -> (r: SampleEntryParams)
    ensures
        entry_fits(r),
        is_av01_entry(r, extra_data@, width, height),
{
    SampleEntryParams::Av01 {
        visual: VisualFields { width, height },
        av1c: Av1Config {
            seq_profile: 0,
            seq_level_idx_0: 0,
            seq_tier_0: 0,
            high_bitdepth: 0,
            twelve_bit: 0,
            monochrome: 0,
            chroma_subsampling_x: 1,
            chroma_subsampling_y: 1,
            chroma_sample_position: 0,
            initial_presentation_delay_minus_one: None,
            config_obus: vstd::slice::slice_to_vec(extra_data),
        },
    }
}

/// The audio fields of an entry: the channel count and the sample rate
/// truncated to 16 bits.
pub open spec fn spec_audio_fields(sample_rate: u32, channels: u8) -> AudioFields {
    AudioFields { channel_count: channels as u16, sample_rate: sample_rate as u16 }
}

fn audio_fields(sample_rate: u32, channels: u8) -> (r: AudioFields)
    ensures
        r == spec_audio_fields(sample_rate, channels),
{
    AudioFields { channel_count: channels as u16, sample_rate: sample_rate as u16 }
}

/// The `mp4a` entry built by `build_mp4a_sample_entry`.
pub open spec fn is_mp4a_entry(e: SampleEntryParams, sample_rate: u32, channels: u8) -> bool {
    match e {
        SampleEntryParams::Mp4a { audio, es } => {
            &&& audio == spec_audio_fields(sample_rate, channels)
            &&& es.es_id == 1
            &&& es.stream_priority == 0
            &&& es.object_type_indication == 0x40
            &&& es.stream_type == 5
            &&& es.up_stream == 0
            &&& es.buffer_size_db == 0
            &&& es.max_bitrate == 0
            &&& es.avg_bitrate == 0
            &&& es.decoder_specific_info.deep_view() == Some(
                spec_audio_specific_config(sample_rate, channels),
            )
        },
        _ => false,
    }
}

/// AAC sample entry (`mp4a` with an `esds` box, ISO/IEC 14496-12 12.2.3
/// and 14496-3): an audio stream (type 5) of object type 0x40 whose
/// decoder-specific information is the AAC-LC AudioSpecificConfig.
pub fn build_mp4a_sample_entry(sample_rate: u32, channels: u8) -> (r: SampleEntryParams)
    ensures
        entry_fits(r),
        is_mp4a_entry(r, sample_rate, channels),
{
    let asc = build_aac_audio_specific_config(sample_rate, channels);
    assert(asc.deep_view() =~= asc@);
    SampleEntryParams::Mp4a {
        audio: audio_fields(sample_rate, channels),
        es: EsConfig {
            es_id: 1,
            stream_priority: 0,
            object_type_indication: 0x40,
            stream_type: 5,
            up_stream: 0,
            buffer_size_db: 0,
            max_bitrate: 0,
            avg_bitrate: 0,
            decoder_specific_info: Some(asc),
        },
    }
}

/// Opus sample entry (`Opus` with a `dOps` box, RFC 7845 / the Opus in
/// ISOBMFF mapping): channel count, pre-skip and input rate as given, no
/// output gain.
pub fn build_opus_sample_entry(sample_rate: u32, channels: u8, pre_skip: u16) -> (r:
    SampleEntryParams)
    ensures
        entry_fits(r),
        r matches SampleEntryParams::Opus { audio, dops } && audio == spec_audio_fields(
            sample_rate,
            channels,
        ) && dops == (OpusConfig {
            output_channel_count: channels,
            pre_skip,
            input_sample_rate: sample_rate,
            output_gain: 0,
        }),
{
    SampleEntryParams::Opus {
        audio: audio_fields(sample_rate, channels),
        dops: OpusConfig {
            output_channel_count: channels,
            pre_skip,
            input_sample_rate: sample_rate,
            output_gain: 0,
        },
    }
}

/// An `avc1` entry records chroma format and bit depths exactly for the
/// profiles other than Baseline (66), Main (77) and Extended (88), whose
/// `avcC` has no such fields; the profile is the SPS byte after the NAL
/// header (66 for an SPS too short to hold it).
pub proof fn lemma_avc1_extension_fields(e: SampleEntryParams, sps: Seq<u8>, pps: Seq<u8>, width: u16, height: u16)
    requires
        is_avc1_entry(e, sps, pps, width, height),
    ensures
        e matches SampleEntryParams::Avc1 { visual, avcc } && {
            let p = avcc.avc_profile_indication;
            &&& visual.width == width && visual.height == height
            &&& p == (if sps.len() > 1 { sps[1] } else { 66u8 })
            &&& avcc.profile_compatibility == (if sps.len() > 2 { sps[2] } else { 0u8 })
            &&& avcc.avc_level_indication == (if sps.len() > 3 { sps[3] } else { 30u8 })
            &&& avcc.sps_list.deep_view() == seq![sps] && avcc.pps_list.deep_view() == seq![pps]
            &&& (p == 66 || p == 77 || p == 88) ==> avcc.chroma_format is None && avcc.bit_depth_luma_minus8 is None
                && avcc.bit_depth_chroma_minus8 is None
            &&& !(p == 66 || p == 77 || p == 88) ==> avcc.chroma_format == Some(1u8) && avcc.bit_depth_luma_minus8
                == Some(0u8) && avcc.bit_depth_chroma_minus8 == Some(0u8)
        },
{
}

} // verus!
