//! Reading the input MP4: every sample of a video or audio track is copied
//! out of the file bytes, in the order the demuxer yields them, after
//! checking that its data lies inside the file.
use vstd::prelude::*;


use crate::error::Error;
use crate::mp4::{
    demuxer_handle_whole_file, demuxer_next_sample, demuxer_tracks, mp4_sample, mp4_tracks, new_demuxer,
    InputEntry,
};
use crate::mux::MediaKind;
use crate::params::{entry_info, is_entry_read, EntryInfo};

verus! {

/// A sample as the demuxer reports it: its track's kind, its timing, where
/// its data lies in the file, and whether a sample entry comes with it.
#[derive(Debug, Clone, Copy, PartialEq, Eq, Structural)]
pub struct SampleInfo {
    pub kind: MediaKind,
    pub keyframe: bool,
    pub timestamp: u64,
    pub duration: u32,
    pub data_offset: u64,
    pub data_size: usize,
    pub composition_time_offset: Option<i64>,
    pub has_entry: bool,
}

/// What one call of the demuxer's `next_sample` gives.
#[derive(Debug, Clone, Copy, PartialEq, Eq, Structural)]
pub enum DemuxStep {
    Sample(SampleInfo),
    End,
    Failed,
}

/// A sample as the demuxer reports it, with its sample entry.
pub struct DemuxedSample {
    pub info: SampleInfo,
    pub sample_entry: Option<InputEntry>,
}

/// A compressed input sample with its timing.
#[derive(Debug)]
pub struct RawSample {
    pub data: Vec<u8>,
    pub timestamp: u64,
    pub duration: u32,
    pub keyframe: bool,
    pub composition_time_offset: Option<i64>,
    pub sample_entry: Option<EntryInfo>,
}

/// The samples of the input, split by track kind.
#[derive(Debug)]
pub struct DemuxedInput {
    /// Kind and timescale of every track of the input.
    pub tracks: Vec<(MediaKind, u32)>,
    pub video_samples: Vec<RawSample>,
    pub audio_samples: Vec<RawSample>,
    /// Timescale of the first video track, if there is one.
    pub video_timescale: Option<u32>,
    /// Timescale of the first audio track, if there is one.
    pub audio_timescale: Option<u32>,
}

/// The byte range `start..end` of a sample in a file of `file_size` bytes,
/// or why it cannot be read.
pub open spec fn spec_sample_data_range(data_offset: u64, data_size: usize, file_size: usize) -> Result<(usize, usize), ()> {
    let end = data_offset + data_size;
    if end > u64::MAX || data_offset > usize::MAX || end > usize::MAX || end > file_size {
        Err(())
    } else {
        Ok((data_offset as usize, end as usize))
    }
}

/// Checks that a sample's data lies inside the file: an offset past
/// 64 bits or past `usize` is a `Message` error; data ending past the file
/// is an `InvalidSampleRange` error carrying the range and the file size.
pub fn sample_data_range(data_offset: u64, data_size: usize, file_size: usize) -> (r: Result<(usize, usize), Error>)
    ensures
        r is Ok <==> spec_sample_data_range(data_offset, data_size, file_size) is Ok,
        r matches Ok(range) ==> spec_sample_data_range(data_offset, data_size, file_size) == Ok::<(usize, usize), ()>(range),
        r matches Err(e) ==> ({
            let end = data_offset + data_size;
            if end <= u64::MAX && data_offset <= usize::MAX && end <= usize::MAX {
                e == Error::InvalidSampleRange { start: data_offset as usize, end: end as usize, file_size }
            } else {
                e is Message
            }
        }),
{
    if data_offset > u64::MAX - data_size as u64 {
        return Err(Error::Message(String::from_str("サンプルデータ範囲がオーバーフローしました")));
    }
    let end_u64 = data_offset + data_size as u64;
    if data_offset > usize::MAX as u64 {
        return Err(Error::Message(String::from_str("サンプルデータ開始位置が usize を超えました")));
    }
    if end_u64 > usize::MAX as u64 {
        return Err(Error::Message(String::from_str("サンプルデータ終了位置が usize を超えました")));
    }
    let start = data_offset as usize;
    let end = end_u64 as usize;
    if end > file_size {
        return Err(Error::InvalidSampleRange { start, end, file_size });
    }
    Ok((start, end))
}

/// Position of the first entry of `tracks` of the given kind.
pub open spec fn first_of_kind(tracks: Seq<(MediaKind, u32)>, kind: MediaKind) -> Option<int>
    decreases tracks.len(),
{
    if tracks.len() == 0 {
        None
    } else {
        match first_of_kind(tracks.drop_last(), kind) {
            Some(i) => Some(i),
            None => if tracks.last().0 == kind {
                Some(tracks.len() - 1)
            } else {
                None
            },
        }
    }
}

/// Timescale of the first track of the given kind.
pub open spec fn first_timescale(tracks: Seq<(MediaKind, u32)>, kind: MediaKind) -> Option<u32> {
    match first_of_kind(tracks, kind) {
        Some(i) => Some(tracks[i].1),
        None => None,
    }
}

proof fn lemma_first_of_kind_bounds(tracks: Seq<(MediaKind, u32)>, kind: MediaKind)
    ensures
        first_of_kind(tracks, kind) matches Some(i) ==> 0 <= i < tracks.len() && tracks[i].0 == kind,
    decreases tracks.len(),
{
    if tracks.len() > 0 {
        lemma_first_of_kind_bounds(tracks.drop_last(), kind);
    }
}

/// Timescale of the first track of `kind` among `tracks`.
pub fn first_track_timescale(tracks: &Vec<(MediaKind, u32)>, kind: MediaKind) -> (r: Option<u32>)
    ensures
        r == first_timescale(tracks@, kind),
{
    let mut i: usize = 0;
    while i < tracks.len()
        invariant
            i <= tracks@.len(),
            first_of_kind(tracks@.take(i as int), kind) is None,
        decreases tracks@.len() - i,
    {
        assert(tracks@.take(i + 1).drop_last() =~= tracks@.take(i as int));
        if tracks[i].0 == kind {
            proof {
                lemma_first_of_kind_prefix(tracks@, kind, i as int + 1);
                assert(tracks@.take(i + 1).last() == tracks@[i as int]);
                lemma_first_of_kind_bounds(tracks@, kind);
            }
            return Some(tracks[i].1);
        }
        i = i + 1;
    }
    assert(tracks@.take(i as int) =~= tracks@);
    None
}

proof fn lemma_first_of_kind_prefix(tracks: Seq<(MediaKind, u32)>, kind: MediaKind, m: int)
    requires
        0 <= m <= tracks.len(),
        first_of_kind(tracks.take(m), kind) is Some,
    ensures
        first_of_kind(tracks, kind) == first_of_kind(tracks.take(m), kind),
    decreases tracks.len() - m,
{
    if m < tracks.len() {
        assert(tracks.take(m + 1).drop_last() =~= tracks.take(m));
        lemma_first_of_kind_prefix(tracks, kind, m + 1);
    } else {
        assert(tracks.take(m) =~= tracks);
    }
}

/// `sample` is a copy of `data[start..start + len]` for some `start`.
pub open spec fn is_slice_of(sample: Seq<u8>, data: Seq<u8>) -> bool {
    exists|start: int| 0 <= start && start + sample.len() <= data.len() && #[trigger] data.subrange(start, start + sample.len()) == sample
}

/// The demuxer yields `n` samples for `data`, then ends.
pub open spec fn yields(data: Seq<u8>, n: nat) -> bool {
    &&& forall|k: nat| k < n ==> #[trigger] mp4_sample(data, k) is Sample
    &&& mp4_sample(data, n) is End
}

/// The data of sample `k` of `data` lies inside the file.
pub open spec fn sample_in_file(data: Seq<u8>, k: nat) -> bool {
    match mp4_sample(data, k) {
        DemuxStep::Sample(s) => spec_sample_data_range(s.data_offset, s.data_size, data.len() as usize) is Ok,
        _ => true,
    }
}

/// The samples of `kind` among the first `n` the demuxer yields for `data`,
/// each with the number of the call that yielded it.
pub open spec fn samples_of_kind(data: Seq<u8>, n: nat, kind: MediaKind) -> Seq<(nat, SampleInfo)>
    decreases n,
{
    if n == 0 {
        Seq::empty()
    } else {
        let before = samples_of_kind(data, (n - 1) as nat, kind);
        match mp4_sample(data, (n - 1) as nat) {
            DemuxStep::Sample(s) => if s.kind == kind {
                before.push(((n - 1) as nat, s))
            } else {
                before
            },
            _ => before,
        }
    }
}

/// `raw` is `infos` read out of `data`: the same timing and keyframe flags,
/// the data at each sample's place in the file, and a sample entry exactly
/// where the demuxer reported one, read from the entry of that call.
pub open spec fn read_out(raw: Seq<RawSample>, infos: Seq<(nat, SampleInfo)>, data: Seq<u8>) -> bool {
    &&& raw.len() == infos.len()
    &&& forall|i: int|
        0 <= i < raw.len() ==> {
            let s = infos[i].1;
            &&& (#[trigger] raw[i]).timestamp == s.timestamp
            &&& raw[i].duration == s.duration
            &&& raw[i].keyframe == s.keyframe
            &&& raw[i].composition_time_offset == s.composition_time_offset
            &&& raw[i].data@ == data.subrange(s.data_offset as int, s.data_offset + s.data_size)
            &&& raw[i].sample_entry is Some == s.has_entry
            &&& raw[i].sample_entry matches Some(e) ==> is_entry_read(e, data, infos[i].0)
        }
}

/// The tracks include a video or an audio track.
pub open spec fn has_media_track(tracks: Seq<(MediaKind, u32)>) -> bool {
    first_timescale(tracks, MediaKind::Video) is Some || first_timescale(tracks, MediaKind::Audio) is Some
}

/// `data` can be read: the demuxer reports its tracks, among them a video
/// or audio track, and yields fewer than 2^64 - 1 samples, each inside the
/// file.
pub open spec fn demuxable(data: Seq<u8>) -> bool {
    &&& mp4_tracks(data) matches Some(t) && has_media_track(t)
    &&& exists|n: nat| #[trigger] yields(data, n) && n < u64::MAX && forall|k: nat| k < n ==> #[trigger] sample_in_file(data, k)
}

/// Sample `k` is the first the demuxer yields for `data` whose data does
/// not lie inside the file.
pub open spec fn first_outside_file(data: Seq<u8>, k: nat) -> bool {
    &&& forall|j: nat| j < k ==> #[trigger] mp4_sample(data, j) is Sample && sample_in_file(data, j)
    &&& mp4_sample(data, k) is Sample
    &&& !sample_in_file(data, k)
}

/// `e` is the error `sample_data_range` gives for sample `k` of `data`:
/// `InvalidSampleRange` with the sample's range and the file size, or a
/// `Message` when the range does not fit the machine's integers.
pub open spec fn outside_file_error(e: Error, data: Seq<u8>, k: nat) -> bool {
    match mp4_sample(data, k) {
        DemuxStep::Sample(s) => {
            let end = s.data_offset + s.data_size;
            if end <= u64::MAX && s.data_offset <= usize::MAX && end <= usize::MAX {
                e == Error::InvalidSampleRange { start: s.data_offset as usize, end: end as usize, file_size: data.len() as usize }
            } else {
                e is Message
            }
        },
        _ => false,
    }
}

/// When the first `k` samples lie in the file and sample `k` is not a
/// sample inside the file, no sample is the first outside the file, or
/// sample `k` is.
proof fn lemma_first_outside_at(data: Seq<u8>, k: nat)
    requires
        forall|j: nat| j < k ==> #[trigger] mp4_sample(data, j) is Sample && sample_in_file(data, j),
        !(mp4_sample(data, k) is Sample && sample_in_file(data, k)),
    ensures
        forall|m: nat| #[trigger] first_outside_file(data, m) ==> m == k,
{
    assert forall|m: nat| #[trigger] first_outside_file(data, m) implies m == k by {
        if m < k {
            assert(mp4_sample(data, m) is Sample && sample_in_file(data, m));
        } else if m > k {
            assert(mp4_sample(data, k) is Sample && sample_in_file(data, k));
        }
    }
}

proof fn lemma_samples_of_kind_step(data: Seq<u8>, k: nat, kind: MediaKind)
    ensures
        samples_of_kind(data, k + 1, kind) == match mp4_sample(data, k) {
            DemuxStep::Sample(s) => if s.kind == kind {
                samples_of_kind(data, k, kind).push((k, s))
            } else {
                samples_of_kind(data, k, kind)
            },
            _ => samples_of_kind(data, k, kind),
        },
{
}

/// No `n` witnesses `demuxable` when sample `k` is reached after `k`
/// samples and is not a sample inside the file.
proof fn lemma_not_demuxable_at(data: Seq<u8>, k: nat)
    requires
        forall|j: nat| j < k ==> #[trigger] mp4_sample(data, j) is Sample,
        !(mp4_sample(data, k) is Sample && sample_in_file(data, k)),
        !(mp4_sample(data, k) is End),
    ensures
        !demuxable(data),
{
    assert forall|n: nat| #[trigger] yields(data, n) && n < u64::MAX implies !(forall|j: nat| j < n ==> #[trigger] sample_in_file(data, j)) by {
        if n < k {
            assert(mp4_sample(data, n) is Sample);
        } else if n == k {
        } else {
            assert(mp4_sample(data, k) is Sample);
            assert(!sample_in_file(data, k));
            assert(k < n);
        }
    }
}

/// Reads all samples of the input file `data` (an MP4 file in memory) with
/// the MP4 library's demuxer: the tracks are those it reports; an input
/// without a video or audio track is a `Message` error "no video/audio
/// track in input"; every sample of a video or audio track is copied out
/// of the file, in the order yielded, after checking with
/// `sample_data_range` that it lies inside the file (its error stops the
/// reading); samples of other tracks are skipped; the demuxer's errors
/// become `Demux` errors.
pub fn demux_input(data: &[u8]) -> (r: Result<DemuxedInput, Error>)
    ensures
        r is Ok <==> demuxable(data@),
        r matches Ok(d) ==> {
            &&& mp4_tracks(data@) == Some(d.tracks@)
            &&& d.video_timescale == first_timescale(d.tracks@, MediaKind::Video)
            &&& d.audio_timescale == first_timescale(d.tracks@, MediaKind::Audio)
            &&& forall|i: int| 0 <= i < d.tracks@.len() ==> #[trigger] d.tracks@[i].1 > 0
            &&& exists|n: nat| #[trigger] yields(data@, n) && read_out(d.video_samples@, samples_of_kind(data@, n, MediaKind::Video), data@)
                && read_out(d.audio_samples@, samples_of_kind(data@, n, MediaKind::Audio), data@)
        },
        mp4_tracks(data@) is None ==> (r matches Err(e) && e is Demux),
        mp4_tracks(data@) matches Some(t) && !has_media_track(t) ==> (r matches Err(Error::Message(m))
            && m@ == "no video/audio track in input"@),
        r matches Err(Error::InvalidSampleRange { start, end, file_size }) ==> file_size == data@.len() && start <= end && end > file_size,
        r matches Err(e) ==> (e is Demux || e is InvalidSampleRange || e is Message),
        forall|k: nat|
            #[trigger] first_outside_file(data@, k) && k < u64::MAX && (mp4_tracks(data@) matches Some(t)
                && has_media_track(t)) ==> (r matches Err(e) && outside_file_error(e, data@, k)),
{
    let ghost input = data@;
    let mut demuxer = new_demuxer();
    demuxer_handle_whole_file(&mut demuxer, data);
    let tracks = match demuxer_tracks(&mut demuxer) {
        Ok(t) => t,
        Err(e) => return Err(Error::Demux(e)),
    };
    let video_timescale = first_track_timescale(&tracks, MediaKind::Video);
    let audio_timescale = first_track_timescale(&tracks, MediaKind::Audio);
    if video_timescale.is_none() && audio_timescale.is_none() {
        return Err(Error::Message(String::from_str("no video/audio track in input")));
    }
    let mut video_samples: Vec<RawSample> = Vec::new();
    let mut audio_samples: Vec<RawSample> = Vec::new();
    let mut budget: u64 = u64::MAX;
    while budget > 0
        invariant
            input == data@,
            demuxer.fed() == Some(input),
            demuxer.taken() + budget == u64::MAX,
            mp4_tracks(input) == Some(tracks@),
            video_timescale == first_timescale(tracks@, MediaKind::Video),
            audio_timescale == first_timescale(tracks@, MediaKind::Audio),
            video_timescale is Some || audio_timescale is Some,
            forall|j: int| 0 <= j < tracks@.len() ==> #[trigger] tracks@[j].1 > 0,
            forall|j: nat| j < demuxer.taken() ==> #[trigger] mp4_sample(input, j) is Sample,
            forall|j: nat| j < demuxer.taken() ==> #[trigger] sample_in_file(input, j),
            read_out(video_samples@, samples_of_kind(input, demuxer.taken(), MediaKind::Video), input),
            read_out(audio_samples@, samples_of_kind(input, demuxer.taken(), MediaKind::Audio), input),
        decreases budget,
    {
        let ghost k = demuxer.taken();
        proof {
            lemma_samples_of_kind_step(input, k, MediaKind::Video);
            lemma_samples_of_kind_step(input, k, MediaKind::Audio);
        }
        let sample = match demuxer_next_sample(&mut demuxer) {
            Ok(Some(s)) => s,
            Ok(None) => {
                proof {
                    lemma_first_outside_at(input, k);
                    assert(yields(input, k));
                    assert(forall|j: nat| j < k ==> #[trigger] sample_in_file(input, j));
                    assert(samples_of_kind(input, k + 1, MediaKind::Video) == samples_of_kind(input, k, MediaKind::Video));
                }
                return Ok(DemuxedInput { tracks, video_samples, audio_samples, video_timescale, audio_timescale });
            },
            Err(e) => {
                proof {
                    lemma_not_demuxable_at(input, k);
                    lemma_first_outside_at(input, k);
                }
                return Err(Error::Demux(e));
            },
        };
        let (start, end) = match sample_data_range(sample.info.data_offset, sample.info.data_size, data.len()) {
            Ok(range) => range,
            Err(e) => {
                proof {
                    lemma_not_demuxable_at(input, k);
                    lemma_first_outside_at(input, k);
                    assert(first_outside_file(input, k));
                }
                return Err(e);
            },
        };
        let bytes = vstd::slice::slice_to_vec(vstd::slice::slice_subrange(data, start, end));
        let raw = RawSample {
            data: bytes,
            timestamp: sample.info.timestamp,
            duration: sample.info.duration,
            keyframe: sample.info.keyframe,
            composition_time_offset: sample.info.composition_time_offset,
            sample_entry: match &sample.sample_entry {
                Some(e) => Some(entry_info(e)),
                None => None,
            },
        };
        if sample.info.kind == MediaKind::Video {
            video_samples.push(raw);
        } else if sample.info.kind == MediaKind::Audio {
            audio_samples.push(raw);
        }
        proof {
            assert(sample_in_file(input, k));
            assert forall|j: nat| j < k + 1 implies #[trigger] mp4_sample(input, j) is Sample by {
                if j < k {
                }
            }
            assert forall|j: nat| j < k + 1 implies #[trigger] sample_in_file(input, j) by {
                if j < k {
                }
            }
        }
        budget = budget - 1;
    }
    proof {
        let k = demuxer.taken();
        assert(k == u64::MAX);
        assert forall|m: nat| #[trigger] first_outside_file(input, m) && m < u64::MAX implies false by {
            assert(mp4_sample(input, m) is Sample && sample_in_file(input, m));
        }
        assert forall|n: nat| #[trigger] yields(input, n) && n < u64::MAX implies !(forall|j: nat| j < n ==> #[trigger] sample_in_file(input, j)) by {
            assert(mp4_sample(input, n) is Sample);
        }
    }
    Err(Error::Message(String::from_str("too many samples in input")))
}

} // verus!
