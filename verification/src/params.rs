//! Parameters read from the input: sample entries, decoder configuration,
//! average durations and bitrates, and plane copies that drop row padding.
use vstd::prelude::*;


use crate::demux::RawSample;
use crate::error::Error;
use crate::sample_entry::{is_hev1_entry, HevcConfig, HevcNaluArray, SampleEntryParams};
use crate::mp4::{
    mp4_entry_avc_parameter_sets, mp4_entry_channel_count, mp4_entry_codec, mp4_entry_hevc_nalu_arrays,
    mp4_entry_resolution, mp4_entry_sample_rate, InputEntry,
    entry_audio_channel_count, entry_audio_sample_rate, entry_avc_parameter_sets, entry_codec,
    entry_hevc_nalu_arrays, entry_video_resolution,
};

verus! {

/// Video timescale assumed when the input has none: 30 ticks per second.
pub const DEFAULT_VIDEO_TIMESCALE: u32 = 30;

/// Which sample entry box an input track uses.
#[derive(Debug, Clone, Copy, PartialEq, Eq, Structural)]
pub enum EntryCodec {
    Avc1,
    Hev1,
    Hvc1,
    Av01,
    Mp4a,
    Opus,
    Other,
}

/// What the encode reads of an input sample entry: its box, the video
/// resolution, the audio sample rate and channel count (for entries that
/// have them), the SPS and PPS lists of an `avc1` entry and the NAL unit
/// arrays (type, units) of an `hev1`/`hvc1` entry (empty for other boxes).
#[derive(Debug)]
pub struct EntryInfo {
    pub codec: EntryCodec,
    pub resolution: Option<(u16, u16)>,
    pub sample_rate: Option<u16>,
    pub channel_count: Option<u8>,
    pub avc_sps_list: Vec<Vec<u8>>,
    pub avc_pps_list: Vec<Vec<u8>>,
    pub hevc_arrays: Vec<(u8, Vec<Vec<u8>>)>,
}

/// Video sample entries: those with a resolution and no audio parameters.
pub open spec fn is_video_codec(codec: EntryCodec) -> bool {
    codec == EntryCodec::Avc1 || codec == EntryCodec::Hev1 || codec == EntryCodec::Hvc1 || codec
        == EntryCodec::Av01
}

/// Audio sample entries: those with a sample rate and channel count and no
/// resolution.
pub open spec fn is_audio_codec(codec: EntryCodec) -> bool {
    codec == EntryCodec::Mp4a || codec == EntryCodec::Opus
}

/// The shape of an `EntryInfo`: parameter sets only for the boxes that
/// carry them, audio parameters never on a video entry, a resolution never
/// on an audio entry.
pub open spec fn is_entry_shape(info: EntryInfo) -> bool {
    &&& info.codec != EntryCodec::Avc1 ==> info.avc_sps_list@.len() == 0 && info.avc_pps_list@.len() == 0
    &&& !is_hevc(info.codec) ==> info.hevc_arrays@.len() == 0
    &&& is_video_codec(info.codec) ==> info.sample_rate is None && info.channel_count is None
    &&& is_audio_codec(info.codec) ==> info.resolution is None
}

/// `info` is what the encode reads of the sample entry that call `k` of
/// the demuxer on `data` came with: the box as the MP4 library reports
/// it, and of the fields the library reports those that box has.
pub open spec fn is_entry_read(info: EntryInfo, data: Seq<u8>, k: nat) -> bool {
    let codec = mp4_entry_codec(data, k);
    &&& info.codec == codec
    &&& info.resolution == if is_audio_codec(codec) {
        None
    } else {
        mp4_entry_resolution(data, k)
    }
    &&& info.sample_rate == if is_video_codec(codec) {
        None
    } else {
        mp4_entry_sample_rate(data, k)
    }
    &&& info.channel_count == if is_video_codec(codec) {
        None
    } else {
        mp4_entry_channel_count(data, k)
    }
    &&& (info.avc_sps_list.deep_view(), info.avc_pps_list.deep_view()) == if codec == EntryCodec::Avc1 {
        mp4_entry_avc_parameter_sets(data, k)
    } else {
        (Seq::<Seq<u8>>::empty(), Seq::<Seq<u8>>::empty())
    }
    &&& info.hevc_arrays.deep_view() == if is_hevc(codec) {
        mp4_entry_hevc_nalu_arrays(data, k)
    } else {
        Seq::<(u8, Seq<Seq<u8>>)>::empty()
    }
}

/// Reads what the encode needs out of an MP4 library sample entry: the box
/// it is, and only the fields that box has (the parameter sets of `avc1`,
/// the NAL unit arrays of `hev1`/`hvc1`, no audio fields on a video entry,
/// no resolution on an audio entry).
pub fn entry_info(e: &InputEntry) -> (r: EntryInfo)
    ensures
        is_entry_shape(r),
        is_entry_read(r, e.origin().0, e.origin().1),
{
    let codec = entry_codec(e);
    let (avc_sps_list, avc_pps_list) = if codec == EntryCodec::Avc1 {
        entry_avc_parameter_sets(e)
    } else {
        let none: (Vec<Vec<u8>>, Vec<Vec<u8>>) = (Vec::new(), Vec::new());
        assert(none.0.deep_view() =~= Seq::<Seq<u8>>::empty());
        assert(none.1.deep_view() =~= Seq::<Seq<u8>>::empty());
        none
    };
    let hevc_arrays = if codec == EntryCodec::Hev1 || codec == EntryCodec::Hvc1 {
        entry_hevc_nalu_arrays(e)
    } else {
        let none: Vec<(u8, Vec<Vec<u8>>)> = Vec::new();
        assert(none.deep_view() =~= Seq::<(u8, Seq<Seq<u8>>)>::empty());
        none
    };
    let is_video = codec == EntryCodec::Avc1 || codec == EntryCodec::Hev1 || codec == EntryCodec::Hvc1
        || codec == EntryCodec::Av01;
    let is_audio = codec == EntryCodec::Mp4a || codec == EntryCodec::Opus;
    let resolution = if is_audio {
        None
    } else {
        entry_video_resolution(e)
    };
    let (sample_rate, channel_count) = if is_video {
        (None, None)
    } else {
        (entry_audio_sample_rate(e), entry_audio_channel_count(e))
    };
    EntryInfo {
        codec,
        resolution,
        sample_rate,
        channel_count,
        avc_sps_list,
        avc_pps_list,
        hevc_arrays,
    }
}

/// Index of the first sample that carries a sample entry.
pub open spec fn first_entry_index(samples: Seq<RawSample>) -> Option<int>
    decreases samples.len(),
{
    if samples.len() == 0 {
        None
    } else {
        match first_entry_index(samples.drop_last()) {
            Some(i) => Some(i),
            None => if samples.last().sample_entry is Some {
                Some(samples.len() - 1)
            } else {
                None
            },
        }
    }
}

proof fn lemma_first_entry_index_prefix(samples: Seq<RawSample>, m: int)
    requires
        0 <= m <= samples.len(),
        first_entry_index(samples.take(m)) is Some,
    ensures
        first_entry_index(samples) == first_entry_index(samples.take(m)),
    decreases samples.len() - m,
{
    if m < samples.len() {
        assert(samples.take(m + 1).drop_last() =~= samples.take(m));
        lemma_first_entry_index_prefix(samples, m + 1);
    } else {
        assert(samples.take(m) =~= samples);
    }
}

/// The sample entry of the first sample that has one, or a `Message`
/// error when no sample has one.
pub fn first_sample_entry(samples: &[RawSample]) -> (r: Result<&EntryInfo, Error>)
    ensures
        match first_entry_index(samples@) {
            Some(i) => r matches Ok(e) && 0 <= i < samples@.len() && samples@[i].sample_entry == Some(*e),
            None => r matches Err(e) && e is Message,
        },
{
    let mut i: usize = 0;
    while i < samples.len()
        invariant
            i <= samples@.len(),
            first_entry_index(samples@.take(i as int)) is None,
        decreases samples@.len() - i,
    {
        assert(samples@.take(i + 1).drop_last() =~= samples@.take(i as int));
        assert(samples@.take(i + 1).last() == samples@[i as int]);
        match &samples[i].sample_entry {
            Some(e) => {
                proof {
                    lemma_first_entry_index_prefix(samples@, i as int + 1);
                }
                return Ok(e);
            },
            None => {},
        }
        i = i + 1;
    }
    assert(samples@.take(i as int) =~= samples@);
    Err(Error::Message(String::from_str("トラックに SampleEntry がありません")))
}

/// Width and height of a video sample entry; a `Message` error for entries
/// that have none.
pub fn resolution_of(entry: &EntryInfo) -> (r: Result<(u16, u16), Error>)
    ensures
        match entry.resolution {
            Some(wh) => r == Ok::<(u16, u16), Error>(wh),
            None => r matches Err(e) && e is Message,
        },
{
    match entry.resolution {
        Some(wh) => Ok(wh),
        None => Err(Error::Message(String::from_str("映像の解像度を取得できません"))),
    }
}

/// Sample rate and channel count of an audio sample entry; a `Message`
/// error when either is missing.
pub fn audio_params_of(entry: &EntryInfo) -> (r: Result<(u32, u8), Error>)
    ensures
        match (entry.sample_rate, entry.channel_count) {
            (Some(rate), Some(ch)) => r == Ok::<(u32, u8), Error>((rate as u32, ch)),
            _ => r matches Err(e) && e is Message,
        },
{
    match (entry.sample_rate, entry.channel_count) {
        (Some(rate), Some(channels)) => Ok((rate as u32, channels)),
        _ => Err(Error::Message(String::from_str("音声のサンプルレート/チャンネル数を取得できません"))),
    }
}

/// Position of the first NAL unit array of the given type.
pub open spec fn first_array_of_type(arrays: Seq<(u8, Vec<Vec<u8>>)>, nal_type: u8) -> Option<int>
    decreases arrays.len(),
{
    if arrays.len() == 0 {
        None
    } else {
        match first_array_of_type(arrays.drop_last(), nal_type) {
            Some(i) => Some(i),
            None => if arrays.last().0 == nal_type {
                Some(arrays.len() - 1)
            } else {
                None
            },
        }
    }
}

/// The first NAL unit of the first array of the given type, if that array
/// has one.
pub open spec fn first_nalu_of_type(arrays: Seq<(u8, Vec<Vec<u8>>)>, nal_type: u8) -> Option<Seq<u8>> {
    match first_array_of_type(arrays, nal_type) {
        Some(i) => if arrays[i].1@.len() > 0 {
            Some(arrays[i].1@[0]@)
        } else {
            None
        },
        None => None,
    }
}

proof fn lemma_first_array_prefix(arrays: Seq<(u8, Vec<Vec<u8>>)>, nal_type: u8, m: int)
    requires
        0 <= m <= arrays.len(),
        first_array_of_type(arrays.take(m), nal_type) is Some,
    ensures
        first_array_of_type(arrays, nal_type) == first_array_of_type(arrays.take(m), nal_type),
    decreases arrays.len() - m,
{
    if m < arrays.len() {
        assert(arrays.take(m + 1).drop_last() =~= arrays.take(m));
        lemma_first_array_prefix(arrays, nal_type, m + 1);
    } else {
        assert(arrays.take(m) =~= arrays);
    }
}

proof fn lemma_first_array_bounds(arrays: Seq<(u8, Vec<Vec<u8>>)>, nal_type: u8)
    ensures
        first_array_of_type(arrays, nal_type) matches Some(i) ==> 0 <= i < arrays.len(),
    decreases arrays.len(),
{
    if arrays.len() > 0 {
        lemma_first_array_bounds(arrays.drop_last(), nal_type);
    }
}

/// The first NAL unit of the first array of the given type.
fn first_nalu(arrays: &Vec<(u8, Vec<Vec<u8>>)>, nal_type: u8) -> (r: Option<Vec<u8>>)
    ensures
        r.deep_view() == first_nalu_of_type(arrays@, nal_type),
{
    let mut i: usize = 0;
    while i < arrays.len()
        invariant
            i <= arrays@.len(),
            first_array_of_type(arrays@.take(i as int), nal_type) is None,
        decreases arrays@.len() - i,
    {
        assert(arrays@.take(i + 1).drop_last() =~= arrays@.take(i as int));
        assert(arrays@.take(i + 1).last() == arrays@[i as int]);
        if arrays[i].0 == nal_type {
            proof {
                lemma_first_array_prefix(arrays@, nal_type, i as int + 1);
            }
            if arrays[i].1.len() > 0 {
                let v = vstd::slice::slice_to_vec(arrays[i].1[0].as_slice());
                assert(v.deep_view() =~= arrays@[i as int].1@[0]@);
                return Some(v);
            } else {
                return None;
            }
        }
        i = i + 1;
    }
    assert(arrays@.take(i as int) =~= arrays@);
    None
}

/// VPS, SPS and PPS of an `hvcC` record given as (NAL type, units) arrays:
/// the first unit of the first array of type 32, 33 and 34 respectively;
/// a `Message` error naming the first one that is missing.
pub fn h265_parameter_sets(arrays: &Vec<(u8, Vec<Vec<u8>>)>) -> (r: Result<(Vec<u8>, Vec<u8>, Vec<u8>), Error>)
    ensures
        r is Ok <==> (first_nalu_of_type(arrays@, 32) is Some && first_nalu_of_type(arrays@, 33) is Some
            && first_nalu_of_type(arrays@, 34) is Some),
        r matches Ok((vps, sps, pps)) ==> Some(vps@) == first_nalu_of_type(arrays@, 32) && Some(sps@)
            == first_nalu_of_type(arrays@, 33) && Some(pps@) == first_nalu_of_type(arrays@, 34),
        r matches Err(e) ==> e is Message,
{
    let vps = match first_nalu(arrays, 32) {
        Some(v) => v,
        None => return Err(Error::Message(String::from_str("hvcC に VPS がありません"))),
    };
    let sps = match first_nalu(arrays, 33) {
        Some(v) => v,
        None => return Err(Error::Message(String::from_str("hvcC に SPS がありません"))),
    };
    let pps = match first_nalu(arrays, 34) {
        Some(v) => v,
        None => return Err(Error::Message(String::from_str("hvcC に PPS がありません"))),
    };
    assert(vps.deep_view() =~= vps@);
    assert(sps.deep_view() =~= sps@);
    assert(pps.deep_view() =~= pps@);
    Ok((vps, sps, pps))
}

/// The NAL unit arrays of an `hvcC` record as (NAL type, units) pairs, the
/// form in which an input entry's arrays are read.
pub open spec fn hevc_arrays_of(c: HevcConfig) -> Seq<(u8, Vec<Vec<u8>>)> {
    c.nalu_arrays@.map_values(|a: HevcNaluArray| (a.nal_unit_type, a.nalus))
}

/// The parameter sets an `hev1` entry was built with are the ones read
/// back from its arrays: VPS, SPS and PPS are the first units of the
/// arrays of types 32, 33 and 34.
pub proof fn lemma_hev1_parameter_sets_round_trip(
    e: SampleEntryParams,
    vps: Seq<u8>,
    sps: Seq<u8>,
    pps: Seq<u8>,
    width: u16,
    height: u16,
)
    requires
        is_hev1_entry(e, vps, sps, pps, width, height),
    ensures
        e matches SampleEntryParams::Hev1 { hvcc, .. } && {
            let arrays = hevc_arrays_of(hvcc);
            &&& first_nalu_of_type(arrays, 32) == Some(vps)
            &&& first_nalu_of_type(arrays, 33) == Some(sps)
            &&& first_nalu_of_type(arrays, 34) == Some(pps)
            &&& has_hevc_parameter_sets(arrays)
        },
{
    if let SampleEntryParams::Hev1 { hvcc, .. } = e {
        let arrays = hevc_arrays_of(hvcc);
        let a1 = arrays.drop_last();
        let a0 = a1.drop_last();
        assert(arrays.len() == 3);
        assert(arrays[0].0 == 32 && arrays[1].0 == 33 && arrays[2].0 == 34);
        assert(a0.len() == 1 && a0.last() == arrays[0]);
        assert(a1.len() == 2 && a1.last() == arrays[1]);
        assert(arrays.last() == arrays[2]);
        assert(first_array_of_type(a0.drop_last(), 32) is None);
        assert(first_array_of_type(a0.drop_last(), 33) is None);
        assert(first_array_of_type(a0.drop_last(), 34) is None);
        assert(first_array_of_type(a0, 32) == Some(0int));
        assert(first_array_of_type(a0, 33) is None);
        assert(first_array_of_type(a0, 34) is None);
        assert(first_array_of_type(a1, 32) == Some(0int));
        assert(first_array_of_type(a1, 33) == Some(1int));
        assert(first_array_of_type(a1, 34) is None);
        assert(first_array_of_type(arrays, 32) == Some(0int));
        assert(first_array_of_type(arrays, 33) == Some(1int));
        assert(first_array_of_type(arrays, 34) == Some(2int));
        let n0 = hvcc.nalu_arrays@[0].nalus;
        assert(n0.deep_view() == seq![vps]);
        assert(seq![vps].len() == 1);
        assert(n0.deep_view().len() == 1);
        assert(n0.deep_view().len() == n0@.len());
        assert(n0.deep_view()[0] == n0@[0].deep_view());
        assert(n0@[0].deep_view() =~= n0@[0]@);
        assert(arrays[0].1@.len() > 0 && arrays[0].1@[0]@ == vps);
        let n1 = hvcc.nalu_arrays@[1].nalus;
        assert(n1.deep_view() == seq![sps]);
        assert(seq![sps].len() == 1);
        assert(n1.deep_view().len() == 1);
        assert(n1.deep_view().len() == n1@.len());
        assert(n1.deep_view()[0] == n1@[0].deep_view());
        assert(n1@[0].deep_view() =~= n1@[0]@);
        assert(arrays[1].1@.len() > 0 && arrays[1].1@[0]@ == sps);
        let n2 = hvcc.nalu_arrays@[2].nalus;
        assert(n2.deep_view() == seq![pps]);
        assert(seq![pps].len() == 1);
        assert(n2.deep_view().len() == 1);
        assert(n2.deep_view().len() == n2@.len());
        assert(n2.deep_view()[0] == n2@[0].deep_view());
        assert(n2@[0].deep_view() =~= n2@[0]@);
        assert(arrays[2].1@.len() > 0 && arrays[2].1@[0]@ == pps);
    }
}

/// Whether an entry is an H.265 one (`hev1` or `hvc1`).
pub open spec fn is_hevc(codec: EntryCodec) -> bool {
    codec == EntryCodec::Hev1 || codec == EntryCodec::Hvc1
}

/// Whether the NAL unit arrays hold a VPS, an SPS and a PPS.
pub open spec fn has_hevc_parameter_sets(arrays: Seq<(u8, Vec<Vec<u8>>)>) -> bool {
    &&& first_nalu_of_type(arrays, 32) is Some
    &&& first_nalu_of_type(arrays, 33) is Some
    &&& first_nalu_of_type(arrays, 34) is Some
}

/// VPS, SPS and PPS of an H.265 (`hev1` or `hvc1`) sample entry (see
/// `h265_parameter_sets`); a `Message` error for other entries or when one
/// of them is missing.
pub fn extract_h265_params(entry: &EntryInfo) -> (r: Result<(Vec<u8>, Vec<u8>, Vec<u8>), Error>)
    ensures
        r is Ok <==> is_hevc(entry.codec) && has_hevc_parameter_sets(entry.hevc_arrays@),
        r matches Ok((vps, sps, pps)) ==> Some(vps@) == first_nalu_of_type(entry.hevc_arrays@, 32)
            && Some(sps@) == first_nalu_of_type(entry.hevc_arrays@, 33) && Some(pps@)
            == first_nalu_of_type(entry.hevc_arrays@, 34),
        r matches Err(e) ==> e is Message,
{
    if entry.codec != EntryCodec::Hev1 && entry.codec != EntryCodec::Hvc1 {
        return Err(Error::Message(String::from_str("映像トラックが H.265 ではありません")));
    }
    h265_parameter_sets(&entry.hevc_arrays)
}

/// How the input video is decoded: VideoToolbox with the H.264 or H.265
/// parameter sets, or dav1d for AV1.
#[derive(Debug)]
pub enum VideoDecoderParams {
    H264 { sps: Vec<u8>, pps: Vec<u8> },
    Hevc { vps: Vec<u8>, sps: Vec<u8>, pps: Vec<u8> },
    Av1,
}

/// Chooses the video decoder for an input sample entry: `avc1` uses its
/// first SPS and PPS, `hev1`/`hvc1` their VPS/SPS/PPS, `av01` dav1d; any
/// other entry, or a missing parameter set, is a `Message` error.
pub fn video_decoder_params(entry: &EntryInfo) -> (r: Result<VideoDecoderParams, Error>)
    ensures
        r is Ok <==> match entry.codec {
            EntryCodec::Avc1 => entry.avc_sps_list@.len() > 0 && entry.avc_pps_list@.len() > 0,
            EntryCodec::Hev1 | EntryCodec::Hvc1 => has_hevc_parameter_sets(entry.hevc_arrays@),
            EntryCodec::Av01 => true,
            _ => false,
        },
        r matches Ok(p) ==> match p {
            VideoDecoderParams::H264 { sps, pps } => entry.codec == EntryCodec::Avc1
                && sps@ == entry.avc_sps_list@[0]@ && pps@ == entry.avc_pps_list@[0]@,
            VideoDecoderParams::Hevc { vps, sps, pps } => is_hevc(entry.codec)
                && Some(vps@) == first_nalu_of_type(entry.hevc_arrays@, 32)
                && Some(sps@) == first_nalu_of_type(entry.hevc_arrays@, 33)
                && Some(pps@) == first_nalu_of_type(entry.hevc_arrays@, 34),
            VideoDecoderParams::Av1 => entry.codec == EntryCodec::Av01,
        },
        r matches Err(e) ==> e is Message,
{
    match entry.codec {
        EntryCodec::Avc1 => {
            if entry.avc_sps_list.len() == 0 {
                return Err(Error::Message(String::from_str("avcC に SPS がありません")));
            }
            if entry.avc_pps_list.len() == 0 {
                return Err(Error::Message(String::from_str("avcC に PPS がありません")));
            }
            let sps = vstd::slice::slice_to_vec(entry.avc_sps_list[0].as_slice());
            let pps = vstd::slice::slice_to_vec(entry.avc_pps_list[0].as_slice());
            Ok(VideoDecoderParams::H264 { sps, pps })
        },
        EntryCodec::Hev1 | EntryCodec::Hvc1 => {
            let (vps, sps, pps) = extract_h265_params(entry)?;
            Ok(VideoDecoderParams::Hevc { vps, sps, pps })
        },
        EntryCodec::Av01 => Ok(VideoDecoderParams::Av1),
        _ => Err(Error::Message(String::from_str("未対応の映像コーデックです"))),
    }
}

/// Codec of the input audio for the AudioToolbox decoder.
#[derive(Debug, Clone, Copy, PartialEq, Eq, Structural)]
pub enum AudioDecoderCodec {
    AacLc,
    Opus,
}

/// Chooses the audio decoder for an input sample entry: AAC-LC for `mp4a`
/// or Opus for `Opus`, with the entry's sample rate and channel count; a
/// `Message` error when either is missing or for other entries.
pub fn audio_decoder_params(entry: &EntryInfo) -> (r: Result<(AudioDecoderCodec, u32, u8), Error>)
    ensures
        match (entry.sample_rate, entry.channel_count, entry.codec) {
            (Some(rate), Some(ch), EntryCodec::Mp4a) => r == Ok::<(AudioDecoderCodec, u32, u8), Error>(
                (AudioDecoderCodec::AacLc, rate as u32, ch),
            ),
            (Some(rate), Some(ch), EntryCodec::Opus) => r == Ok::<(AudioDecoderCodec, u32, u8), Error>(
                (AudioDecoderCodec::Opus, rate as u32, ch),
            ),
            _ => r matches Err(e) && e is Message,
        },
{
    let (sample_rate, channels) = audio_params_of(entry)?;
    match entry.codec {
        EntryCodec::Mp4a => Ok((AudioDecoderCodec::AacLc, sample_rate, channels)),
        EntryCodec::Opus => Ok((AudioDecoderCodec::Opus, sample_rate, channels)),
        _ => Err(Error::Message(String::from_str("未対応の音声コーデックです"))),
    }
}

/// Sum of the durations of the samples.
pub open spec fn total_duration(samples: Seq<RawSample>) -> int
    decreases samples.len(),
{
    if samples.len() == 0 {
        0
    } else {
        total_duration(samples.drop_last()) + samples.last().duration
    }
}

/// Sum of the data sizes of the samples.
pub open spec fn total_data_len(samples: Seq<RawSample>) -> int
    decreases samples.len(),
{
    if samples.len() == 0 {
        0
    } else {
        total_data_len(samples.drop_last()) + samples.last().data@.len()
    }
}

proof fn lemma_totals_prefix(samples: Seq<RawSample>, i: int)
    requires
        0 <= i < samples.len(),
    ensures
        total_duration(samples.take(i + 1)) == total_duration(samples.take(i)) + samples[i].duration,
        total_data_len(samples.take(i + 1)) == total_data_len(samples.take(i)) + samples[i].data@.len(),
        total_duration(samples.take(i)) <= total_duration(samples),
        total_data_len(samples.take(i)) <= total_data_len(samples),
{
    assert(samples.take(i + 1).drop_last() =~= samples.take(i));
    assert(samples.take(i + 1).last() == samples[i]);
    lemma_totals_monotone(samples, i, samples.len() as int);
    assert(samples.take(samples.len() as int) =~= samples);
}

proof fn lemma_totals_monotone(samples: Seq<RawSample>, i: int, j: int)
    requires
        0 <= i <= j <= samples.len(),
    ensures
        total_duration(samples.take(i)) <= total_duration(samples.take(j)),
        total_data_len(samples.take(i)) <= total_data_len(samples.take(j)),
    decreases j - i,
{
    if i < j {
        lemma_totals_monotone(samples, i, j - 1);
        assert(samples.take(j).drop_last() =~= samples.take(j - 1));
    }
}

/// Whether the sum of the durations and the sum of the data sizes of the
/// samples both fit in 64 bits.
pub fn totals_fit(samples: &[RawSample]) -> (r: bool)
    ensures
        r == (total_duration(samples@) <= u64::MAX && total_data_len(samples@) <= u64::MAX),
{
    let mut dur: u64 = 0;
    let mut bytes: u64 = 0;
    let mut i: usize = 0;
    while i < samples.len()
        invariant
            i <= samples@.len(),
            dur == total_duration(samples@.take(i as int)),
            bytes == total_data_len(samples@.take(i as int)),
        decreases samples@.len() - i,
    {
        proof {
            lemma_totals_prefix(samples@, i as int);
        }
        match (dur.checked_add(samples[i].duration as u64), bytes.checked_add(samples[i].data.len() as u64)) {
            (Some(d), Some(b)) => {
                dur = d;
                bytes = b;
            },
            _ => {
                proof {
                    lemma_totals_monotone(samples@, i as int + 1, samples@.len() as int);
                    assert(samples@.take(samples@.len() as int) =~= samples@);
                }
                return false;
            },
        }
        i = i + 1;
    }
    assert(samples@.take(i as int) =~= samples@);
    true
}

/// Sums of durations and data sizes of all samples.
fn totals(samples: &[RawSample]) -> (r: (u64, u64))
    requires
        total_duration(samples@) <= u64::MAX,
        total_data_len(samples@) <= u64::MAX,
    ensures
        r.0 == total_duration(samples@),
        r.1 == total_data_len(samples@),
{
    let mut dur: u64 = 0;
    let mut bytes: u64 = 0;
    let mut i: usize = 0;
    while i < samples.len()
        invariant
            i <= samples@.len(),
            total_duration(samples@) <= u64::MAX,
            total_data_len(samples@) <= u64::MAX,
            dur == total_duration(samples@.take(i as int)),
            bytes == total_data_len(samples@.take(i as int)),
        decreases samples@.len() - i,
    {
        proof {
            lemma_totals_prefix(samples@, i as int);
            lemma_totals_monotone(samples@, i as int + 1, samples@.len() as int);
            assert(samples@.take(samples@.len() as int) =~= samples@);
        }
        dur = dur + samples[i].duration as u64;
        bytes = bytes + samples[i].data.len() as u64;
        i = i + 1;
    }
    assert(samples@.take(i as int) =~= samples@);
    (dur, bytes)
}

/// Mean sample duration (rounded down), 0 for no samples.
pub fn average_duration(samples: &[RawSample]) -> (r: u64)
    requires
        total_duration(samples@) <= u64::MAX,
        total_data_len(samples@) <= u64::MAX,
    ensures
        r == if samples@.len() == 0 {
            0
        } else {
            total_duration(samples@) / (samples@.len() as int)
        },
{
    if samples.len() == 0 {
        return 0;
    }
    let (dur, _) = totals(samples);
    dur / samples.len() as u64
}

/// Average bitrate in kbps of samples timed in `timescale` ticks per
/// second: total bits times `timescale` over the total duration, divided
/// by 1000 and truncated to 32 bits. `None` without samples, with a zero
/// timescale or total duration, or when the product overflows 64 bits.
pub open spec fn spec_average_bitrate_kbps(samples: Seq<RawSample>, timescale: u32) -> Option<u32> {
    let bytes = total_data_len(samples);
    let dur = total_duration(samples);
    if samples.len() == 0 || timescale == 0 || dur == 0 {
        None
    } else if bytes * 8 > u64::MAX || bytes * 8 * timescale > u64::MAX {
        None
    } else {
        Some(((bytes * 8 * timescale / dur) / 1000) as u32)
    }
}

/// Average bitrate of the samples in kbps (see `spec_average_bitrate_kbps`).
pub fn average_bitrate_kbps(samples: &[RawSample], timescale: u32) -> (r: Option<u32>)
    requires
        total_duration(samples@) <= u64::MAX,
        total_data_len(samples@) <= u64::MAX,
    ensures
        r == spec_average_bitrate_kbps(samples@, timescale),
{
    if samples.len() == 0 || timescale == 0 {
        return None;
    }
    let (dur, bytes) = totals(samples);
    if dur == 0 {
        return None;
    }
    if bytes > u64::MAX / 8 {
        return None;
    }
    let bits = bytes * 8;
    if bits > u64::MAX / timescale as u64 {
        proof {
            assert(bits * timescale > u64::MAX) by (nonlinear_arith)
                requires
                    bits > (u64::MAX as int) / (timescale as int),
                    timescale > 0,
            ;
        }
        return None;
    }
    proof {
        assert(bits * timescale <= u64::MAX) by (nonlinear_arith)
            requires
                bits <= (u64::MAX as int) / (timescale as int),
                timescale > 0,
        ;
    }
    let bps = bits * timescale as u64 / dur;
    Some((bps / 1000) as u32)
}

/// Copy of a `width` x `height` plane whose rows start `stride` bytes
/// apart in `src`, without the padding between rows.
pub open spec fn is_plane_copy(dst: Seq<u8>, src: Seq<u8>, stride: int, width: int, height: int) -> bool {
    &&& dst.len() == width * height
    &&& forall|row: int, col: int|
        0 <= row < height && 0 <= col < width ==> #[trigger] dst[row * width + col] == src[row * stride + col]
}

/// A buffer of `src_len` bytes holds a `width` x `height` plane whose
/// rows start `stride` bytes apart (a plane without padding when `stride`
/// is the width).
pub open spec fn plane_in_buffer(src_len: int, stride: int, width: int, height: int) -> bool {
    &&& width * height <= usize::MAX
    &&& stride == width || height == 0 ==> width * height <= src_len
    &&& stride != width && height > 0 ==> (height - 1) * stride + width <= src_len
}

/// Whether `copy_stride` can copy such a plane out of `src_len` bytes
/// (see `plane_in_buffer`).
pub fn plane_fits(src_len: usize, stride: usize, width: usize, height: usize) -> (r: bool)
    ensures
        r == plane_in_buffer(src_len as int, stride as int, width as int, height as int),
{
    let area = match width.checked_mul(height) {
        Some(a) => a,
        None => return false,
    };
    if stride == width || height == 0 {
        return area <= src_len;
    }
    match (height - 1).checked_mul(stride) {
        Some(before_last) => match before_last.checked_add(width) {
            Some(end) => end <= src_len,
            None => false,
        },
        None => {
            proof {
                assert((height - 1) * stride + width > usize::MAX) by (nonlinear_arith)
                    requires
                        (height - 1) * stride > usize::MAX,
                        width >= 0,
                ;
            }
            false
        },
    }
}

/// Copies a plane out of a strided buffer (see `is_plane_copy`).
pub fn copy_stride(src: &[u8], stride: usize, width: usize, height: usize) -> (dst: Vec<u8>)
    requires
        plane_in_buffer(src@.len() as int, stride as int, width as int, height as int),
    ensures
        is_plane_copy(dst@, src@, stride as int, width as int, height as int),
{
    if stride == width || height == 0 {
        let n = width * height;
        let dst = vstd::slice::slice_to_vec(vstd::slice::slice_subrange(src, 0, n));
        proof {
            assert forall|row: int, col: int| 0 <= row < height && 0 <= col < width implies #[trigger] dst@[row
                * width + col] == src@[row * stride + col] by {
                assert(0 <= row * width + col < width * height) by (nonlinear_arith)
                    requires
                        0 <= row < height,
                        0 <= col < width,
                ;
            }
        }
        return dst;
    }
    let mut dst: Vec<u8> = Vec::new();
    let mut row: usize = 0;
    let src_len = src.len();
    while row < height
        invariant
            src_len == src@.len(),
            stride != width,
            0 < height,
            row <= height,
            width * height <= usize::MAX,
            (height - 1) * stride + width <= src@.len(),
            dst@.len() == row * width,
            forall|r: int, c: int|
                0 <= r < row && 0 <= c < width ==> #[trigger] dst@[r * width + c] == src@[r * stride + c],
        decreases height - row,
    {
        proof {
            assert(row * stride + width <= (height - 1) * stride + width) by (nonlinear_arith)
                requires
                    row < height,
            ;
            assert((row + 1) * width == row * width + width) by (nonlinear_arith);
            assert(row * width + width <= width * height) by (nonlinear_arith)
                requires
                    row < height,
            ;
        }
        let start = row * stride;
        let mut col: usize = 0;
        let ghost before = dst@;
        while col < width
            invariant
                row < height,
                col <= width,
                start == row * stride,
                start + width <= src@.len(),
                src_len == src@.len(),
                row * width + width <= usize::MAX,
                dst@.len() == row * width + col,
                dst@.subrange(0, row * width) == before,
                before.len() == row * width,
                forall|c: int| 0 <= c < col ==> #[trigger] dst@[row * width + c] == src@[start + c],
            decreases width - col,
        {
            assert(start + col < src_len);
            dst.push(src[start + col]);
            col = col + 1;
        }
        proof {
            assert forall|r: int, c: int|
                0 <= r < row + 1 && 0 <= c < width implies #[trigger] dst@[r * width + c] == src@[r * stride + c] by {
                if r < row {
                    assert(r * width + c < row * width) by (nonlinear_arith)
                        requires
                            r < row,
                            c < width,
                    ;
                    assert(dst@[r * width + c] == before[r * width + c]);
                } else {
                    assert(r == row);
                }
            }
        }
        row = row + 1;
    }
    assert(height * width == width * height) by (nonlinear_arith);
    dst
}

/// The input bitrate is measured whenever the track has samples, a
/// positive timescale and duration, and its bits times the timescale fit
/// 64 bits: total bits per second (bits * timescale / duration ticks) in
/// kbps; it is not measured when that product exceeds 64 bits.
pub proof fn lemma_bitrate_measured_when_it_fits(samples: Seq<RawSample>, timescale: u32)
    ensures
        ({
            let bytes = total_data_len(samples);
            let dur = total_duration(samples);
            &&& samples.len() > 0 && timescale > 0 && dur > 0 && bytes * 8 * timescale <= u64::MAX
                ==> spec_average_bitrate_kbps(samples, timescale) == Some(((bytes * 8 * timescale / dur) / 1000) as u32)
            &&& bytes * 8 * timescale > u64::MAX ==> spec_average_bitrate_kbps(samples, timescale) is None
        }),
{
    let bytes = total_data_len(samples);
    lemma_totals_monotone(samples, 0, samples.len() as int);
    assert(samples.take(0) =~= Seq::<RawSample>::empty());
    assert(samples.take(samples.len() as int) =~= samples);
    if bytes * 8 * timescale <= u64::MAX && timescale > 0 {
        assert(bytes * 8 <= bytes * 8 * timescale) by (nonlinear_arith)
            requires
                bytes >= 0,
                timescale >= 1,
        ;
    }
}

} // verus!
