//! Decisions of the video encode around the codec libraries: frame rate,
//! timing of encoded frames, parameter sets for the sample entry, and when
//! to stop waiting for the encoder.
use vstd::prelude::*;

use crate::demux::RawSample;
use crate::error::Error;
use crate::mux::{EncodedVideoSample, VideoOutput};
use crate::order::{is_permutation_of_indices, is_time_ordered, time_order, Timed};
use crate::params::{average_duration, total_data_len, total_duration, DEFAULT_VIDEO_TIMESCALE};
use crate::sample_entry::{
    build_av01_sample_entry, build_avc1_sample_entry, build_hev1_sample_entry, is_av01_entry,
    is_avc1_entry, is_hev1_entry,
};

verus! {

/// Frame rate handed to the video encoders as numerator / denominator: the
/// track's timescale (30 when unknown) over the mean sample duration
/// truncated to 32 bits (1 when that is 0).
pub open spec fn spec_frame_rate(timescale: Option<u32>, samples: Seq<RawSample>) -> (u32, u32) {
    let ts = match timescale {
        Some(t) => t,
        None => 30u32,
    };
    let avg = if samples.len() == 0 {
        0
    } else {
        total_duration(samples) / (samples.len() as int)
    };
    let den = (avg as u64) as u32;
    (ts, if den == 0 { 1u32 } else { den })
}

/// Frame rate of the output video (see `spec_frame_rate`).
pub fn frame_rate(timescale: Option<u32>, samples: &[RawSample]) -> (r: (u32, u32))
    requires
        total_duration(samples@) <= u64::MAX,
        total_data_len(samples@) <= u64::MAX,
    ensures
        r == spec_frame_rate(timescale, samples@),
{
    let ts = match timescale {
        Some(t) => t,
        None => DEFAULT_VIDEO_TIMESCALE,
    };
    let avg = average_duration(samples) as u32;
    (ts, if avg == 0 { 1 } else { avg })
}

/// A frame produced by the H.264/H.265 encoder, with the parameter sets it
/// carries.
#[derive(Debug)]
pub struct EncodedVideoFrame {
    pub data: Vec<u8>,
    pub keyframe: bool,
    pub vps_list: Vec<Vec<u8>>,
    pub sps_list: Vec<Vec<u8>>,
    pub pps_list: Vec<Vec<u8>>,
}

/// Index of the first keyframe.
pub open spec fn first_keyframe(frames: Seq<EncodedVideoFrame>) -> Option<int>
    decreases frames.len(),
{
    if frames.len() == 0 {
        None
    } else {
        match first_keyframe(frames.drop_last()) {
            Some(i) => Some(i),
            None => if frames.last().keyframe {
                Some(frames.len() - 1)
            } else {
                None
            },
        }
    }
}

proof fn lemma_first_keyframe_prefix(frames: Seq<EncodedVideoFrame>, m: int)
    requires
        0 <= m <= frames.len(),
        first_keyframe(frames.take(m)) is Some,
    ensures
        first_keyframe(frames) == first_keyframe(frames.take(m)),
    decreases frames.len() - m,
{
    if m < frames.len() {
        assert(frames.take(m + 1).drop_last() =~= frames.take(m));
        lemma_first_keyframe_prefix(frames, m + 1);
    } else {
        assert(frames.take(m) =~= frames);
    }
}

/// Position of the first keyframe.
fn find_first_keyframe(frames: &[EncodedVideoFrame]) -> (r: Option<usize>)
    ensures
        match r {
            Some(i) => first_keyframe(frames@) == Some(i as int) && i < frames@.len(),
            None => first_keyframe(frames@) is None,
        },
{
    let mut i: usize = 0;
    while i < frames.len()
        invariant
            i <= frames@.len(),
            first_keyframe(frames@.take(i as int)) is None,
        decreases frames@.len() - i,
    {
        assert(frames@.take(i + 1).drop_last() =~= frames@.take(i as int));
        assert(frames@.take(i + 1).last() == frames@[i as int]);
        if frames[i].keyframe {
            proof {
                lemma_first_keyframe_prefix(frames@, i as int + 1);
            }
            return Some(i);
        }
        i = i + 1;
    }
    assert(frames@.take(i as int) =~= frames@);
    None
}

/// The first element of a list of byte strings.
fn first_of(list: &Vec<Vec<u8>>) -> (r: Option<Vec<u8>>)
    ensures
        match r {
            Some(v) => list@.len() > 0 && v@ == list@[0]@,
            None => list@.len() == 0,
        },
{
    if list.len() == 0 {
        None
    } else {
        Some(vstd::slice::slice_to_vec(list[0].as_slice()))
    }
}

/// The samples of an encode whose frames come out in input order: frame
/// `i` takes the timing of input sample `i`.
pub open spec fn is_in_order_encode(out: Seq<EncodedVideoSample>, frames: Seq<EncodedVideoFrame>, raw: Seq<RawSample>) -> bool {
    &&& out.len() == frames.len()
    &&& forall|i: int|
        0 <= i < out.len() ==> {
            &&& (#[trigger] out[i]).data@ == frames[i].data@
            &&& out[i].keyframe == frames[i].keyframe
            &&& out[i].timestamp == raw[i].timestamp
            &&& out[i].duration == raw[i].duration
            &&& out[i].composition_time_offset == raw[i].composition_time_offset
        }
}

/// Output samples of the VideoToolbox encoders, which do not reorder
/// frames: the data and keyframe flag of each frame with the timing of the
/// input sample at the same position.
pub fn build_video_samples(frames: &[EncodedVideoFrame], raw: &[RawSample]) -> (out: Vec<EncodedVideoSample>)
    requires
        frames@.len() <= raw@.len(),
    ensures
        is_in_order_encode(out@, frames@, raw@),
{
    let mut out: Vec<EncodedVideoSample> = Vec::new();
    let mut i: usize = 0;
    while i < frames.len()
        invariant
            i <= frames@.len() <= raw@.len(),
            out@.len() == i,
            forall|j: int|
                0 <= j < i ==> {
                    &&& (#[trigger] out@[j]).data@ == frames@[j].data@
                    &&& out@[j].keyframe == frames@[j].keyframe
                    &&& out@[j].timestamp == raw@[j].timestamp
                    &&& out@[j].duration == raw@[j].duration
                    &&& out@[j].composition_time_offset == raw@[j].composition_time_offset
                },
        decreases frames@.len() - i,
    {
        out.push(EncodedVideoSample {
            data: vstd::slice::slice_to_vec(frames[i].data.as_slice()),
            keyframe: frames[i].keyframe,
            timestamp: raw[i].timestamp,
            duration: raw[i].duration,
            composition_time_offset: raw[i].composition_time_offset,
        });
        i = i + 1;
    }
    out
}

/// Completes an H.264 encode: the SPS and PPS of the first keyframe (a
/// `Message` error when there is no keyframe or it lacks one of them), the
/// in-order samples, and the `avc1` entry built from them.
pub fn finish_h264_encode(frames: &[EncodedVideoFrame], raw: &[RawSample], width: u16, height: u16) -> (r: Result<VideoOutput, Error>)
    requires
        frames@.len() <= raw@.len(),
    ensures
        r is Ok <==> (first_keyframe(frames@) matches Some(k) && frames@[k].sps_list@.len() > 0
            && frames@[k].pps_list@.len() > 0),
        r matches Ok(out) ==> ({
            let k = first_keyframe(frames@).unwrap();
            &&& is_in_order_encode(out.samples@, frames@, raw@)
            &&& is_avc1_entry(out.sample_entry, frames@[k].sps_list@[0]@, frames@[k].pps_list@[0]@, width, height)
        }),
        r matches Err(e) ==> e is Message,
{
    let k = match find_first_keyframe(frames) {
        Some(k) => k,
        None => return Err(Error::Message(String::from_str("H.264 エンコード結果から SPS/PPS を取得できません"))),
    };
    let sps = first_of(&frames[k].sps_list);
    let pps = first_of(&frames[k].pps_list);
    match (sps, pps) {
        (Some(sps), Some(pps)) => {
            let samples = build_video_samples(frames, raw);
            let sample_entry = build_avc1_sample_entry(sps.as_slice(), pps.as_slice(), width, height);
            Ok(VideoOutput { samples, sample_entry })
        },
        _ => Err(Error::Message(String::from_str("H.264 エンコード結果から SPS/PPS を取得できません"))),
    }
}

/// Completes an H.265 encode: the VPS, SPS and PPS of the first keyframe
/// (a `Message` error when there is no keyframe or it lacks one of them),
/// the in-order samples, and the `hev1` entry built from them.
pub fn finish_h265_encode(frames: &[EncodedVideoFrame], raw: &[RawSample], width: u16, height: u16) -> (r: Result<VideoOutput, Error>)
    requires
        frames@.len() <= raw@.len(),
    ensures
        r is Ok <==> (first_keyframe(frames@) matches Some(k) && frames@[k].vps_list@.len() > 0
            && frames@[k].sps_list@.len() > 0 && frames@[k].pps_list@.len() > 0),
        r matches Ok(out) ==> ({
            let k = first_keyframe(frames@).unwrap();
            &&& is_in_order_encode(out.samples@, frames@, raw@)
            &&& is_hev1_entry(
                out.sample_entry,
                frames@[k].vps_list@[0]@,
                frames@[k].sps_list@[0]@,
                frames@[k].pps_list@[0]@,
                width,
                height,
            )
        }),
        r matches Err(e) ==> e is Message,
{
    let k = match find_first_keyframe(frames) {
        Some(k) => k,
        None => return Err(Error::Message(String::from_str("H.265 エンコード結果から VPS/SPS/PPS を取得できません"))),
    };
    let vps = first_of(&frames[k].vps_list);
    let sps = first_of(&frames[k].sps_list);
    let pps = first_of(&frames[k].pps_list);
    match (vps, sps, pps) {
        (Some(vps), Some(sps), Some(pps)) => {
            let samples = build_video_samples(frames, raw);
            let sample_entry = build_hev1_sample_entry(vps.as_slice(), sps.as_slice(), pps.as_slice(), width, height);
            Ok(VideoOutput { samples, sample_entry })
        },
        _ => Err(Error::Message(String::from_str("H.265 エンコード結果から VPS/SPS/PPS を取得できません"))),
    }
}

/// A frame produced by the AV1 encoder; `pts` is the position of the input
/// frame it encodes.
#[derive(Debug)]
pub struct Av1Frame {
    pub pts: u64,
    pub data: Vec<u8>,
    pub keyframe: bool,
}

/// The sample an AV1 frame becomes: the timing of the input sample at its
/// `pts`, or timestamp 0 and duration 1 when there is no such sample.
pub open spec fn av1_sample_for(f: Av1Frame, raw: Seq<RawSample>) -> (u64, u32, Option<i64>) {
    if f.pts < raw.len() {
        (raw[f.pts as int].timestamp, raw[f.pts as int].duration, raw[f.pts as int].composition_time_offset)
    } else {
        (0u64, 1u32, None)
    }
}

/// Timing of an AV1 frame (see `av1_sample_for`).
pub fn av1_frame_timing(pts: u64, raw: &[RawSample]) -> (r: (u64, u32, Option<i64>))
    ensures
        r == (if pts < raw@.len() {
            (raw@[pts as int].timestamp, raw@[pts as int].duration, raw@[pts as int].composition_time_offset)
        } else {
            (0u64, 1u32, None)
        }),
{
    if pts < raw.len() as u64 {
        let s = &raw[pts as usize];
        (s.timestamp, s.duration, s.composition_time_offset)
    } else {
        (0, 1, None)
    }
}

/// Completes an AV1 encode: each frame becomes a sample with the timing of
/// the input sample its `pts` names (see `av1_sample_for`), the samples are
/// put in timestamp order (frames with equal timestamps keep the encoder's
/// order), and the `av01` entry holds the encoder's sequence header.
pub fn finish_av1_encode(frames: Vec<Av1Frame>, raw: &[RawSample], extra_data: &[u8], width: u16, height: u16) -> (out: VideoOutput)
    ensures
        out.samples@.len() == frames@.len(),
        is_av01_entry(out.sample_entry, extra_data@, width, height),
        exists|order: Seq<usize>| {
            &&& is_permutation_of_indices(order, frames@.len())
            &&& is_time_ordered(Seq::new(frames@.len(), |i: int| (av1_sample_for(frames@[i], raw@).0, 1u32)), order)
            &&& forall|k: int| 0 <= k < order.len() ==> {
                let f = frames@[order[k] as int];
                let t = av1_sample_for(f, raw@);
                &&& (#[trigger] out.samples@[k]).data@ == f.data@
                &&& out.samples@[k].keyframe == f.keyframe
                &&& out.samples@[k].timestamp == t.0
                &&& out.samples@[k].duration == t.1
                &&& out.samples@[k].composition_time_offset == t.2
            }
        },
{
    let ghost fr = frames@;
    let mut keys: Vec<Timed> = Vec::new();
    let mut i: usize = 0;
    while i < frames.len()
        invariant
            fr == frames@,
            i <= frames@.len(),
            keys@.len() == i,
            forall|j: int| 0 <= j < i ==> #[trigger] keys@[j] == (av1_sample_for(fr[j], raw@).0, 1u32),
        decreases frames@.len() - i,
    {
        let (t, _, _) = av1_frame_timing(frames[i].pts, raw);
        keys.push((t, 1));
        i = i + 1;
    }
    let ghost key_seq = Seq::new(fr.len(), |i: int| (av1_sample_for(fr[i], raw@).0, 1u32));
    assert(keys@ =~= key_seq);
    let order = time_order(&keys);
    let mut samples: Vec<EncodedVideoSample> = Vec::new();
    let mut k: usize = 0;
    while k < order.len()
        invariant
            fr == frames@,
            keys@ == key_seq,
            is_permutation_of_indices(order@, fr.len()),
            k <= order@.len(),
            samples@.len() == k,
            forall|j: int| 0 <= j < k ==> {
                let f = fr[order@[j] as int];
                let t = av1_sample_for(f, raw@);
                &&& (#[trigger] samples@[j]).data@ == f.data@
                &&& samples@[j].keyframe == f.keyframe
                &&& samples@[j].timestamp == t.0
                &&& samples@[j].duration == t.1
                &&& samples@[j].composition_time_offset == t.2
            },
        decreases order@.len() - k,
    {
        let f = &frames[order[k]];
        let (timestamp, duration, composition_time_offset) = av1_frame_timing(f.pts, raw);
        samples.push(EncodedVideoSample {
            data: vstd::slice::slice_to_vec(f.data.as_slice()),
            keyframe: f.keyframe,
            timestamp,
            duration,
            composition_time_offset,
        });
        k = k + 1;
    }
    let sample_entry = build_av01_sample_entry(extra_data, width, height);
    VideoOutput { samples, sample_entry }
}

/// What the encoder drain loop does next.
#[derive(Debug, Clone, Copy, PartialEq, Eq, Structural)]
pub enum DrainAction {
    /// All expected frames are in.
    Done,
    /// Ask the encoder for the next frame now.
    Poll,
    /// Sleep 100 microseconds, then ask again.
    Wait,
    /// Give up: no frame came for the stall timeout.
    TimedOut,
}

/// Stall timeout of the drain loop: 30 seconds, in microseconds.
pub const DRAIN_STALL_TIMEOUT_MICROS: u64 = 30_000_000;

/// Next step of draining `expected` frames from the encoder once `received`
/// have arrived: done when all are in; otherwise, after a poll that gave no
/// frame (`got_frame` false), time out once `micros_since_last_frame`
/// reaches 30 seconds, else wait; after a poll that gave a frame, poll again.
pub fn drain_step(expected: usize, received: usize, got_frame: bool, micros_since_last_frame: u64) -> (a: DrainAction)
    ensures
        a == (if received >= expected {
            DrainAction::Done
        } else if got_frame {
            DrainAction::Poll
        } else if micros_since_last_frame >= DRAIN_STALL_TIMEOUT_MICROS {
            DrainAction::TimedOut
        } else {
            DrainAction::Wait
        }),
{
    if received >= expected {
        DrainAction::Done
    } else if got_frame {
        DrainAction::Poll
    } else if micros_since_last_frame >= DRAIN_STALL_TIMEOUT_MICROS {
        DrainAction::TimedOut
    } else {
        DrainAction::Wait
    }
}

} // verus!
