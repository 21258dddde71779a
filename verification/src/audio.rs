//! Decisions of the audio encode around the codec libraries: the Opus
//! sample rate, how decoded PCM is cut into encoder frames, and the timing
//! of encoded frames.
use vstd::prelude::*;

use crate::mux::EncodedAudioSample;

verus! {

/// Sample rates the Opus encoder accepts.
pub open spec fn is_opus_rate(rate: u32) -> bool {
    rate == 8000 || rate == 12000 || rate == 16000 || rate == 24000 || rate == 48000
}

/// Rate the Opus encoder runs at: the decoded rate when Opus accepts it,
/// otherwise 48 kHz (the PCM is then resampled).
pub fn opus_sample_rate(decoded_rate: u32) -> (r: u32)
    ensures
        r == if is_opus_rate(decoded_rate) { decoded_rate } else { 48000 },
        is_opus_rate(r),
{
    if decoded_rate == 8000 || decoded_rate == 12000 || decoded_rate == 16000 || decoded_rate == 24000
        || decoded_rate == 48000 {
        decoded_rate
    } else {
        48000
    }
}

/// Sum of the first `k` durations.
pub open spec fn duration_prefix(durations: Seq<u32>, k: int) -> int
    decreases k,
{
    if k <= 0 {
        0
    } else {
        duration_prefix(durations, k - 1) + durations[k - 1]
    }
}

proof fn lemma_duration_prefix_monotone(durations: Seq<u32>, j: int, k: int)
    requires
        0 <= j <= k <= durations.len(),
    ensures
        duration_prefix(durations, j) <= duration_prefix(durations, k),
    decreases k - j,
{
    if j < k {
        lemma_duration_prefix_monotone(durations, j, k - 1);
    }
}

/// Whether the durations of the frames add up to at most 2^64 - 1.
pub fn durations_fit(frames: &Vec<(Vec<u8>, u32)>) -> (r: bool)
    ensures
        r == (duration_prefix(frames@.map_values(|f: (Vec<u8>, u32)| f.1), frames@.len() as int) <= u64::MAX),
{
    let ghost durations = frames@.map_values(|f: (Vec<u8>, u32)| f.1);
    let mut sum: u64 = 0;
    let mut k: usize = 0;
    while k < frames.len()
        invariant
            durations == frames@.map_values(|f: (Vec<u8>, u32)| f.1),
            k <= frames@.len(),
            sum == duration_prefix(durations, k as int),
        decreases frames@.len() - k,
    {
        match sum.checked_add(frames[k].1 as u64) {
            Some(t) => sum = t,
            None => {
                proof {
                    lemma_duration_prefix_monotone(durations, k as int + 1, frames@.len() as int);
                }
                return false;
            },
        }
        k = k + 1;
    }
    true
}

/// Encoded audio frames laid end to end: frame `k` starts at the sum of
/// the durations before it and carries no composition offset.
pub fn timed_audio_samples(frames: Vec<(Vec<u8>, u32)>) -> (out: Vec<EncodedAudioSample>)
    requires
        duration_prefix(frames@.map_values(|f: (Vec<u8>, u32)| f.1), frames@.len() as int) <= u64::MAX,
    ensures
        out@.len() == frames@.len(),
        forall|k: int|
            0 <= k < out@.len() ==> {
                &&& (#[trigger] out@[k]).data@ == frames@[k].0@
                &&& out@[k].duration == frames@[k].1
                &&& out@[k].timestamp == duration_prefix(
                    frames@.map_values(|f: (Vec<u8>, u32)| f.1),
                    k,
                )
                &&& out@[k].composition_time_offset is None
            },
{
    let ghost durations = frames@.map_values(|f: (Vec<u8>, u32)| f.1);
    let ghost fr = frames@;
    let mut out: Vec<EncodedAudioSample> = Vec::new();
    let mut cumulative: u64 = 0;
    let mut k: usize = 0;
    while k < frames.len()
        invariant
            fr == frames@,
            durations == fr.map_values(|f: (Vec<u8>, u32)| f.1),
            duration_prefix(durations, fr.len() as int) <= u64::MAX,
            k <= fr.len(),
            out@.len() == k,
            cumulative == duration_prefix(durations, k as int),
            forall|j: int|
                0 <= j < k ==> {
                    &&& (#[trigger] out@[j]).data@ == fr[j].0@
                    &&& out@[j].duration == fr[j].1
                    &&& out@[j].timestamp == duration_prefix(durations, j)
                    &&& out@[j].composition_time_offset is None
                },
        decreases fr.len() - k,
    {
        proof {
            lemma_duration_prefix_monotone(durations, k as int + 1, fr.len() as int);
        }
        let duration = frames[k].1;
        out.push(EncodedAudioSample {
            data: vstd::slice::slice_to_vec(frames[k].0.as_slice()),
            timestamp: cumulative,
            duration,
            composition_time_offset: None,
        });
        cumulative = cumulative + duration as u64;
        k = k + 1;
    }
    out
}

/// How decoded PCM is fed to the Opus encoder: `full_frames` chunks of
/// `chunk_len` interleaved values, then, when values remain, one chunk
/// padded with silence.
#[derive(Debug, Clone, Copy, PartialEq, Eq, Structural)]
pub struct OpusChunking {
    pub chunk_len: usize,
    pub full_frames: usize,
    pub padded_tail: bool,
}

/// Cuts `pcm_len` interleaved PCM values into encoder frames of
/// `frame_samples` samples per channel.
pub fn opus_chunking(pcm_len: usize, frame_samples: usize, channels: u8) -> (r: OpusChunking)
    requires
        frame_samples * channels <= usize::MAX,
        frame_samples * channels > 0,
    ensures
        r.chunk_len == frame_samples * channels,
        r.full_frames == pcm_len / r.chunk_len,
        r.padded_tail == (pcm_len % r.chunk_len != 0),
{
    let chunk_len = frame_samples * channels as usize;
    OpusChunking { chunk_len, full_frames: pcm_len / chunk_len, padded_tail: pcm_len % chunk_len != 0 }
}

/// The last, incomplete chunk: the PCM values from `start` on, followed by
/// zeros up to `chunk_len` values.
pub fn padded_chunk(pcm: &[i16], start: usize, chunk_len: usize) -> (r: Vec<i16>)
    requires
        start <= pcm@.len(),
        pcm@.len() - start <= chunk_len,
    ensures
        r@ == pcm@.subrange(start as int, pcm@.len() as int) + Seq::new(
            (chunk_len - (pcm@.len() - start)) as nat,
            |i: int| 0i16,
        ),
{
    let mut r: Vec<i16> = Vec::new();
    let mut i: usize = start;
    while i < pcm.len()
        invariant
            start <= i <= pcm@.len(),
            r@ == pcm@.subrange(start as int, i as int),
        decreases pcm@.len() - i,
    {
        r.push(pcm[i]);
        assert(pcm@.subrange(start as int, i + 1) =~= pcm@.subrange(start as int, i as int).push(pcm@[i as int]));
        i = i + 1;
    }
    let ghost head = r@;
    while r.len() < chunk_len
        invariant
            head == pcm@.subrange(start as int, pcm@.len() as int),
            head.len() <= r@.len() <= chunk_len,
            r@ == head + Seq::new((r@.len() - head.len()) as nat, |i: int| 0i16),
        decreases chunk_len - r@.len(),
    {
        r.push(0);
        assert(r@ =~= head + Seq::new((r@.len() - head.len()) as nat, |i: int| 0i16));
    }
    r
}

} // verus!
