//! Layout of the output MP4: encoded video and audio samples are written
//! into one data area in presentation-time order, each sample right after
//! the previous one, and the first sample of each track carries the
//! track's sample entry.
use vstd::prelude::*;

use crate::order::{
    comes_before, is_permutation_of_indices, is_time_ordered, positive_timescales, time_order, Timed,
};
use crate::error::{starts_with, Error};
use crate::mp4::{
    entry_params, initial_box_bytes, mp4_finalized, mux_error_text, muxer_append, muxer_finalize,
    muxer_initial_bytes, new_muxer, to_audio_fields, Built, OutputEntry,
    to_av01_entry, to_av1c_box, to_avc1_entry, to_avcc_box, to_decoder_config, to_hev1_entry,
    to_hvcc_array, to_hvcc_box, to_mp4a_entry, to_opus_entry, to_visual_fields,
};
use crate::sample_entry::{entry_fits, hevc_array_fits, HevcNaluArray, SampleEntryParams};

use shiguredo_mp4::boxes::HvccNalUintArray;

verus! {

/// Kind of a media track.
#[derive(Debug, Clone, Copy, PartialEq, Eq, Structural)]
pub enum MediaKind {
    Audio,
    Video,
    Subtitle,
}

/// One encoded video frame.
#[derive(Debug)]
pub struct EncodedVideoSample {
    pub data: Vec<u8>,
    pub keyframe: bool,
    pub timestamp: u64,
    pub duration: u32,
    pub composition_time_offset: Option<i64>,
}

/// One encoded audio frame; its timestamp counts audio samples.
#[derive(Debug)]
pub struct EncodedAudioSample {
    pub data: Vec<u8>,
    pub timestamp: u64,
    pub duration: u32,
    pub composition_time_offset: Option<i64>,
}

/// The encoded video track.
#[derive(Debug)]
pub struct VideoOutput {
    pub samples: Vec<EncodedVideoSample>,
    pub sample_entry: SampleEntryParams,
}

/// The encoded audio track; its timestamps count samples at `sample_rate`.
#[derive(Debug)]
pub struct AudioOutput {
    pub samples: Vec<EncodedAudioSample>,
    pub sample_entry: SampleEntryParams,
    pub sample_rate: u32,
}

/// Where and how one encoded sample goes into the output file.
#[derive(Debug, Clone, Copy, PartialEq, Eq, Structural)]
pub struct PlannedSample {
    /// `Video` or `Audio`.
    pub kind: MediaKind,
    /// Position of the sample within its track.
    pub index: usize,
    /// Whether the track's sample entry accompanies this sample.
    pub with_sample_entry: bool,
    pub keyframe: bool,
    pub timescale: u32,
    pub duration: u32,
    pub composition_time_offset: Option<i64>,
    /// Position of the sample's data in the output file.
    pub data_offset: u64,
    pub data_size: usize,
}

/// A sample as it is handed to the muxer: its track, whether its sample
/// entry comes with it, its timing and where its data lies in the file.
#[derive(Debug, Clone, Copy, PartialEq, Eq, Structural)]
pub struct AppendedSample {
    pub kind: MediaKind,
    pub has_entry: bool,
    pub keyframe: bool,
    pub timescale: u32,
    pub duration: u32,
    pub composition_time_offset: Option<i64>,
    pub data_offset: u64,
    pub data_size: usize,
}

/// What the muxer is given for a planned sample.
pub open spec fn appended_of(p: PlannedSample) -> AppendedSample {
    AppendedSample {
        kind: p.kind,
        has_entry: p.with_sample_entry,
        keyframe: p.keyframe,
        timescale: p.timescale,
        duration: p.duration,
        composition_time_offset: p.composition_time_offset,
        data_offset: p.data_offset,
        data_size: p.data_size,
    }
}

/// Every sample's data fits the 32-bit size field of the muxer.
pub open spec fn sizes_fit(vs: Seq<EncodedVideoSample>, aus: Seq<EncodedAudioSample>) -> bool {
    &&& forall|i: int| 0 <= i < vs.len() ==> #[trigger] vs[i].data@.len() <= u32::MAX
    &&& forall|i: int| 0 <= i < aus.len() ==> #[trigger] aus[i].data@.len() <= u32::MAX
}

/// The sample entry of each track fits the MP4 format's bit fields.
pub open spec fn entries_fit(video: Option<VideoOutput>, audio: Option<AudioOutput>) -> bool {
    &&& video matches Some(v) ==> entry_fits(v.sample_entry)
    &&& audio matches Some(a) ==> entry_fits(a.sample_entry)
}

/// The video samples, or none.
pub open spec fn video_samples(video: Option<VideoOutput>) -> Seq<EncodedVideoSample> {
    match video {
        Some(v) => v.samples@,
        None => Seq::empty(),
    }
}

/// The audio samples, or none.
pub open spec fn audio_samples(audio: Option<AudioOutput>) -> Seq<EncodedAudioSample> {
    match audio {
        Some(a) => a.samples@,
        None => Seq::empty(),
    }
}

/// The instants of all samples, video first, then audio, each counted in its
/// track's timescale.
pub open spec fn merge_keys(
    vs: Seq<EncodedVideoSample>,
    vts: u32,
    aus: Seq<EncodedAudioSample>,
    ats: u32,
) -> Seq<Timed> {
    Seq::new(vs.len(), |i: int| (vs[i].timestamp, vts)) + Seq::new(
        aus.len(),
        |i: int| (aus[i].timestamp, ats),
    )
}

/// Position of a planned sample in `merge_keys`.
pub open spec fn merged_index(p: PlannedSample, video_len: nat) -> int {
    if p.kind == MediaKind::Video {
        p.index as int
    } else {
        video_len + p.index
    }
}

/// `p` describes sample `i` of `merge_keys`, with the fields the muxer
/// needs copied from that sample.
pub open spec fn describes(
    p: PlannedSample,
    i: int,
    vs: Seq<EncodedVideoSample>,
    vts: u32,
    aus: Seq<EncodedAudioSample>,
    ats: u32,
) -> bool {
    if i < vs.len() {
        &&& p.kind == MediaKind::Video
        &&& p.index == i
        &&& p.keyframe == vs[i].keyframe
        &&& p.timescale == vts
        &&& p.duration == vs[i].duration
        &&& p.composition_time_offset == vs[i].composition_time_offset
        &&& p.data_size == vs[i].data@.len()
    } else {
        &&& p.kind == MediaKind::Audio
        &&& p.index == i - vs.len()
        &&& !p.keyframe
        &&& p.timescale == ats
        &&& p.duration == aus[i - vs.len()].duration
        &&& p.composition_time_offset == aus[i - vs.len()].composition_time_offset
        &&& p.data_size == aus[i - vs.len()].data@.len()
    }
}

/// Bytes taken by the first `k` planned samples.
pub open spec fn bytes_before(plan: Seq<PlannedSample>, k: int) -> int
    decreases k,
{
    if k <= 0 {
        0
    } else {
        bytes_before(plan, k - 1) + plan[k - 1].data_size
    }
}

/// Data size of sample `i` of `merge_keys`.
pub open spec fn merged_size(vs: Seq<EncodedVideoSample>, aus: Seq<EncodedAudioSample>, i: int) -> int {
    if i < vs.len() {
        vs[i].data@.len() as int
    } else {
        aus[i - vs.len()].data@.len() as int
    }
}

/// Data bytes of the first `n` samples of `merge_keys` that are not in `placed`.
pub open spec fn unplaced_bytes(
    vs: Seq<EncodedVideoSample>,
    aus: Seq<EncodedAudioSample>,
    placed: Set<int>,
    n: int,
) -> int
    decreases n,
{
    if n <= 0 {
        0
    } else {
        unplaced_bytes(vs, aus, placed, n - 1) + if placed.contains(n - 1) {
            0
        } else {
            merged_size(vs, aus, n - 1)
        }
    }
}

/// Data bytes of all video and audio samples.
pub open spec fn total_bytes(vs: Seq<EncodedVideoSample>, aus: Seq<EncodedAudioSample>) -> int {
    unplaced_bytes(vs, aus, Set::empty(), (vs.len() + aus.len()) as int)
}

proof fn lemma_unplaced_nonneg(
    vs: Seq<EncodedVideoSample>,
    aus: Seq<EncodedAudioSample>,
    placed: Set<int>,
    n: int,
)
    requires
        n <= vs.len() + aus.len(),
    ensures
        unplaced_bytes(vs, aus, placed, n) >= 0,
    decreases n,
{
    if n > 0 {
        lemma_unplaced_nonneg(vs, aus, placed, n - 1);
    }
}

proof fn lemma_unplaced_place(
    vs: Seq<EncodedVideoSample>,
    aus: Seq<EncodedAudioSample>,
    placed: Set<int>,
    x: int,
    n: int,
)
    requires
        0 <= x < n <= vs.len() + aus.len(),
        !placed.contains(x),
    ensures
        unplaced_bytes(vs, aus, placed.insert(x), n) == unplaced_bytes(vs, aus, placed, n)
            - merged_size(vs, aus, x),
    decreases n,
{
    if n - 1 > x {
        lemma_unplaced_place(vs, aus, placed, x, n - 1);
    } else {
        lemma_unplaced_same(vs, aus, placed, x, n - 1);
    }
}

proof fn lemma_unplaced_same(
    vs: Seq<EncodedVideoSample>,
    aus: Seq<EncodedAudioSample>,
    placed: Set<int>,
    x: int,
    n: int,
)
    requires
        0 <= n <= x,
    ensures
        unplaced_bytes(vs, aus, placed.insert(x), n) == unplaced_bytes(vs, aus, placed, n),
    decreases n,
{
    if n > 0 {
        lemma_unplaced_same(vs, aus, placed, x, n - 1);
    }
}

/// The complete correctness condition of a mux plan.
pub open spec fn is_mux_plan(
    plan: Seq<PlannedSample>,
    initial_len: u64,
    vs: Seq<EncodedVideoSample>,
    vts: u32,
    aus: Seq<EncodedAudioSample>,
    ats: u32,
) -> bool {
    let keys = merge_keys(vs, vts, aus, ats);
    let order = Seq::new(plan.len(), |k: int| merged_index(plan[k], vs.len()) as usize);
    &&& is_permutation_of_indices(order, keys.len())
    &&& is_time_ordered(keys, order)
    &&& forall|k: int| 0 <= k < plan.len() ==> describes(#[trigger] plan[k], order[k] as int, vs, vts, aus, ats)
    &&& forall|k: int| 0 <= k < plan.len() ==> #[trigger] plan[k].data_offset == initial_len + bytes_before(plan, k)
    &&& forall|k: int|
        0 <= k < plan.len() ==> (#[trigger] plan[k].with_sample_entry <==> forall|j: int|
            0 <= j < k ==> plan[j].kind != plan[k].kind)
}

proof fn lemma_bytes_before_monotone(plan: Seq<PlannedSample>, j: int, k: int)
    requires
        0 <= j <= k <= plan.len(),
    ensures
        bytes_before(plan, j) <= bytes_before(plan, k),
    decreases k - j,
{
    if j < k {
        lemma_bytes_before_monotone(plan, j, k - 1);
    }
}

/// Plans the output file's data area: all samples in presentation-time
/// order (video before audio at equal instants, each track in its own
/// order), laid out back to back from `initial_len`, the first sample of
/// each track carrying its sample entry. Video counts in `video_timescale`,
/// audio in its sample rate.
pub fn plan_mux(
    initial_len: u64,
    video: &Option<VideoOutput>,
    audio: &Option<AudioOutput>,
    video_timescale: Option<u32>,
) -> (plan: Vec<PlannedSample>)
    requires
        video.is_some() ==> (video_timescale matches Some(t) && t > 0),
        audio matches Some(a) ==> a.sample_rate > 0,
        initial_len + total_bytes(video_samples(*video), audio_samples(*audio)) <= u64::MAX,
    ensures
        is_mux_plan(
            plan@,
            initial_len,
            video_samples(*video),
            match video_timescale {
                Some(t) => t,
                None => 1,
            },
            audio_samples(*audio),
            match audio {
                Some(a) => a.sample_rate,
                None => 1,
            },
        ),
        initial_len + bytes_before(plan@, plan@.len() as int) <= u64::MAX,
{
    let vts: u32 = match video_timescale {
        Some(t) => t,
        None => 1,
    };
    let ats: u32 = match audio {
        Some(a) => a.sample_rate,
        None => 1,
    };
    let ghost vs = video_samples(*video);
    let ghost aus = audio_samples(*audio);
    let ghost keys_spec = merge_keys(vs, vts, aus, ats);
    let mut keys: Vec<Timed> = Vec::new();
    let nv: usize = match video {
        Some(v) => v.samples.len(),
        None => 0,
    };
    let na: usize = match audio {
        Some(a) => a.samples.len(),
        None => 0,
    };
    let mut i: usize = 0;
    while i < nv
        invariant
            i <= nv == vs.len(),
            vs == video_samples(*video),
            keys@ =~= Seq::new(i as nat, |j: int| (vs[j].timestamp, vts)),
        decreases nv - i,
    {
        let t = match video {
            Some(v) => v.samples[i].timestamp,
            None => 0,
        };
        keys.push((t, vts));
        i = i + 1;
    }
    let mut i: usize = 0;
    while i < na
        invariant
            i <= na == aus.len(),
            nv == vs.len(),
            aus == audio_samples(*audio),
            keys@ =~= Seq::new(nv as nat, |j: int| (vs[j].timestamp, vts)) + Seq::new(
                i as nat,
                |j: int| (aus[j].timestamp, ats),
            ),
        decreases na - i,
    {
        let t = match audio {
            Some(a) => a.samples[i].timestamp,
            None => 0,
        };
        keys.push((t, ats));
        i = i + 1;
    }
    assert(keys@ =~= keys_spec);
    assert(vts > 0 || nv == 0);
    assert(positive_timescales(keys@)) by {
        assert forall|k: int| 0 <= k < keys@.len() implies #[trigger] keys@[k].1 > 0 by {
            if k < nv {
                assert(keys@[k].1 == vts);
            } else {
                assert(keys@[k].1 == ats);
            }
        }
    }
    let order = time_order(&keys);
    let n = order.len();
    let ghost total = total_bytes(vs, aus);
    let mut plan: Vec<PlannedSample> = Vec::new();
    let mut offset: u64 = initial_len;
    let mut video_seen = false;
    let mut audio_seen = false;
    let ghost mut placed: Set<int> = Set::empty();
    let mut k: usize = 0;
    while k < n
        invariant
            n == order@.len() == keys@.len() == nv + na,
            nv == vs.len(),
            na == aus.len(),
            vs == video_samples(*video),
            aus == audio_samples(*audio),
            keys@ == merge_keys(vs, vts, aus, ats),
            total == total_bytes(vs, aus),
            initial_len + total <= u64::MAX,
            is_permutation_of_indices(order@, keys@.len()),
            is_time_ordered(keys@, order@),
            k <= n,
            plan@.len() == k,
            forall|j: int| 0 <= j < k ==> describes(#[trigger] plan@[j], order@[j] as int, vs, vts, aus, ats),
            forall|j: int| 0 <= j < k ==> #[trigger] plan@[j].data_offset == initial_len + bytes_before(plan@, j),
            forall|j: int|
                0 <= j < k ==> (#[trigger] plan@[j].with_sample_entry <==> forall|i: int|
                    0 <= i < j ==> plan@[i].kind != plan@[j].kind),
            video_seen <==> exists|j: int| 0 <= j < k && plan@[j].kind == MediaKind::Video,
            audio_seen <==> exists|j: int| 0 <= j < k && plan@[j].kind == MediaKind::Audio,
            offset == initial_len + bytes_before(plan@, k as int),
            forall|x: int| placed.contains(x) <==> exists|j: int| 0 <= j < k && order@[j] == x,
            bytes_before(plan@, k as int) + unplaced_bytes(vs, aus, placed, n as int) == total,
        decreases n - k,
    {
        let idx = order[k];
        proof {
            assert(!placed.contains(idx as int)) by {
                if placed.contains(idx as int) {
                    let j = choose|j: int| 0 <= j < k && order@[j] == idx as int;
                    assert(order@[j] != order@[k as int]);
                }
            }
            lemma_unplaced_place(vs, aus, placed, idx as int, n as int);
            lemma_unplaced_nonneg(vs, aus, placed.insert(idx as int), n as int);
        }
        let ghost old_plan = plan@;
        let ghost old_video_seen = video_seen;
        let ghost old_audio_seen = audio_seen;
        let p = if idx < nv {
            match video {
                Some(v) => {
                    let s = &v.samples[idx];
                    PlannedSample {
                        kind: MediaKind::Video,
                        index: idx,
                        with_sample_entry: !video_seen,
                        keyframe: s.keyframe,
                        timescale: vts,
                        duration: s.duration,
                        composition_time_offset: s.composition_time_offset,
                        data_offset: offset,
                        data_size: s.data.len(),
                    }
                },
                None => {
                    proof {
                        assert(false);
                    }
                    return Vec::new();
                },
            }
        } else {
            match audio {
                Some(a) => {
                    let s = &a.samples[idx - nv];
                    PlannedSample {
                        kind: MediaKind::Audio,
                        index: idx - nv,
                        with_sample_entry: !audio_seen,
                        keyframe: false,
                        timescale: ats,
                        duration: s.duration,
                        composition_time_offset: s.composition_time_offset,
                        data_offset: offset,
                        data_size: s.data.len(),
                    }
                },
                None => {
                    proof {
                        assert(false);
                    }
                    return Vec::new();
                },
            }
        };
        assert(p.data_size == merged_size(vs, aus, idx as int));
        assert(p.kind == MediaKind::Video ==> p.with_sample_entry == !video_seen);
        assert(p.kind == MediaKind::Audio ==> p.with_sample_entry == !audio_seen);
        assert(p.kind == MediaKind::Video || p.kind == MediaKind::Audio);
        let size = p.data_size;
        plan.push(p);
        if p.kind == MediaKind::Video {
            video_seen = true;
        } else {
            audio_seen = true;
        }
        proof {
            assert(plan@ == old_plan.push(p));
            assert(bytes_before(plan@, k as int) == bytes_before(old_plan, k as int)) by {
                lemma_bytes_before_prefix(old_plan, p, k as int);
            }
            assert forall|j: int| 0 <= j < k implies bytes_before(plan@, j) == bytes_before(
                old_plan,
                j,
            ) by {
                lemma_bytes_before_prefix(old_plan, p, j);
            }
            placed = placed.insert(idx as int);
            assert(plan@[k as int] == p);
            assert forall|j: int| 0 <= j < k implies plan@[j] == old_plan[j] by {}
            if p.kind == MediaKind::Video {
                if old_video_seen {
                    let j = choose|j: int| 0 <= j < k && old_plan[j].kind == MediaKind::Video;
                    assert(plan@[j].kind == plan@[k as int].kind);
                }
                assert(plan@[k as int].kind == MediaKind::Video);
                assert(old_audio_seen <==> exists|j: int|
                    0 <= j < k + 1 && plan@[j].kind == MediaKind::Audio);
            } else {
                if old_audio_seen {
                    let j = choose|j: int| 0 <= j < k && old_plan[j].kind == MediaKind::Audio;
                    assert(plan@[j].kind == plan@[k as int].kind);
                }
                assert(plan@[k as int].kind == MediaKind::Audio);
                assert(old_video_seen <==> exists|j: int|
                    0 <= j < k + 1 && plan@[j].kind == MediaKind::Video);
            }
        }
        offset = offset + size as u64;
        k = k + 1;
    }
    proof {
        lemma_unplaced_nonneg(vs, aus, placed, n as int);
        let ord2 = Seq::new(plan@.len(), |j: int| merged_index(plan@[j], vs.len()) as usize);
        assert(ord2 =~= order@) by {
            assert forall|j: int| 0 <= j < plan@.len() implies ord2[j] == order@[j] by {
                assert(describes(plan@[j], order@[j] as int, vs, vts, aus, ats));
            }
        }
    }
    plan
}

proof fn lemma_bytes_before_prefix(plan: Seq<PlannedSample>, p: PlannedSample, k: int)
    requires
        0 <= k <= plan.len(),
    ensures
        bytes_before(plan.push(p), k) == bytes_before(plan, k),
    decreases k,
{
    if k > 0 {
        lemma_bytes_before_prefix(plan, p, k - 1);
    }
}

/// Everything needed to write the output file: the initial bytes, the
/// sample data in `samples` order right after them, and then the
/// (offset, bytes) pairs that complete the file; `appended` is what the
/// muxer accepted, in order, each sample with the parameters of the
/// sample entry it came with.
pub struct MuxedFile {
    pub initial_bytes: Vec<u8>,
    pub samples: Vec<PlannedSample>,
    pub finalized: Vec<(u64, Vec<u8>)>,
    pub appended: Ghost<Seq<(AppendedSample, Option<SampleEntryParams>)>>,
}

/// The MP4 library's form of a sample entry, built from `p`.
fn to_sample_entry(p: &SampleEntryParams) -> (r: OutputEntry)
    requires
        entry_fits(*p),
    ensures
        r.params() == *p,
{
    match p {
        SampleEntryParams::Avc1 { visual, avcc } => to_avc1_entry(to_visual_fields(*visual), to_avcc_box(avcc)),
        SampleEntryParams::Hev1 { visual, hvcc } => {
            let mut arrays: Vec<Built<HvccNalUintArray, HevcNaluArray>> = Vec::new();
            let mut i: usize = 0;
            while i < hvcc.nalu_arrays.len()
                invariant
                    i <= hvcc.nalu_arrays.len(),
                    arrays@.len() == i,
                    forall|j: int| 0 <= j < hvcc.nalu_arrays@.len() ==> hevc_array_fits(#[trigger] hvcc.nalu_arrays@[j]),
                    forall|j: int| 0 <= j < i ==> #[trigger] arrays@[j].from() == hvcc.nalu_arrays@[j],
                decreases hvcc.nalu_arrays.len() - i,
            {
                arrays.push(to_hvcc_array(&hvcc.nalu_arrays[i]));
                i = i + 1;
            }
            to_hev1_entry(to_visual_fields(*visual), to_hvcc_box(hvcc, arrays))
        },
        SampleEntryParams::Av01 { visual, av1c } => to_av01_entry(to_visual_fields(*visual), to_av1c_box(av1c)),
        SampleEntryParams::Mp4a { audio, es } => to_mp4a_entry(
            to_audio_fields(*audio),
            es.es_id,
            es.stream_priority,
            to_decoder_config(es),
        ),
        SampleEntryParams::Opus { audio, dops } => to_opus_entry(to_audio_fields(*audio), *dops),
    }
}

/// Total data bytes of both tracks, or `None` when they exceed `u64::MAX`.
fn sample_bytes(video: &Option<VideoOutput>, audio: &Option<AudioOutput>) -> (r: Option<u64>)
    ensures
        match r {
            Some(t) => t == total_bytes(video_samples(*video), audio_samples(*audio)),
            None => total_bytes(video_samples(*video), audio_samples(*audio)) > u64::MAX,
        },
{
    let ghost vs = video_samples(*video);
    let ghost aus = audio_samples(*audio);
    let nv: usize = match video {
        Some(v) => v.samples.len(),
        None => 0,
    };
    let na: usize = match audio {
        Some(a) => a.samples.len(),
        None => 0,
    };
    let mut acc: u64 = 0;
    let mut i: usize = 0;
    while i < nv
        invariant
            i <= nv == vs.len(),
            na == aus.len(),
            vs == video_samples(*video),
            aus == audio_samples(*audio),
            acc == unplaced_bytes(vs, aus, Set::empty(), i as int),
        decreases nv - i,
    {
        let size = match video {
            Some(v) => v.samples[i].data.len(),
            None => 0,
        };
        if acc as u128 + size as u128 > u64::MAX as u128 {
            proof {
                lemma_unplaced_grows(vs, aus, (i + 1) as int, (nv + na) as int);
            }
            return None;
        }
        acc = acc + size as u64;
        i = i + 1;
    }
    let mut i: usize = 0;
    while i < na
        invariant
            i <= na == aus.len(),
            nv == vs.len(),
            vs == video_samples(*video),
            aus == audio_samples(*audio),
            acc == unplaced_bytes(vs, aus, Set::empty(), nv + i),
        decreases na - i,
    {
        let size = match audio {
            Some(a) => a.samples[i].data.len(),
            None => 0,
        };
        if acc as u128 + size as u128 > u64::MAX as u128 {
            proof {
                lemma_unplaced_grows(vs, aus, (nv + i + 1) as int, (nv + na) as int);
            }
            return None;
        }
        acc = acc + size as u64;
        i = i + 1;
    }
    Some(acc)
}

proof fn lemma_unplaced_grows(vs: Seq<EncodedVideoSample>, aus: Seq<EncodedAudioSample>, m: int, n: int)
    requires
        0 <= m <= n <= vs.len() + aus.len(),
    ensures
        unplaced_bytes(vs, aus, Set::empty(), m) <= unplaced_bytes(vs, aus, Set::empty(), n),
    decreases n - m,
{
    if m < n {
        lemma_unplaced_grows(vs, aus, m, n - 1);
    }
}

/// "<prefix><text>" as a `Message` error.
fn prefixed_message(prefix: &str, text: String) -> (e: Error)
    ensures
        e matches Error::Message(m) && m@ == prefix@ + text@ && starts_with(m@, prefix@),
{
    let mut m = String::from_str(prefix);
    m.append(text.as_str());
    assert(m@.subrange(0, prefix@.len() as int) =~= prefix@);
    Error::Message(m)
}

/// The sample entry of the track of `kind`.
pub open spec fn track_entry(kind: MediaKind, video: Option<VideoOutput>, audio: Option<AudioOutput>) -> SampleEntryParams {
    if kind == MediaKind::Video {
        video->0.sample_entry
    } else {
        audio->0.sample_entry
    }
}

/// What the muxer is given for the plan, in order: each planned sample,
/// and with the first sample of each track that track's own sample entry.
pub open spec fn logged_plan(
    plan: Seq<PlannedSample>,
    video: Option<VideoOutput>,
    audio: Option<AudioOutput>,
) -> Seq<(AppendedSample, Option<SampleEntryParams>)> {
    plan.map_values(
        |p: PlannedSample|
            (appended_of(p), if p.with_sample_entry {
                Some(track_entry(p.kind, video, audio))
            } else {
                None
            }),
    )
}

/// The video timescale, 1 when there is none.
pub open spec fn timescale_or_one(video_timescale: Option<u32>) -> u32 {
    match video_timescale {
        Some(t) => t,
        None => 1,
    }
}

/// The audio sample rate, 1 when there is no audio.
pub open spec fn rate_or_one(audio: Option<AudioOutput>) -> u32 {
    match audio {
        Some(a) => a.sample_rate,
        None => 1,
    }
}

/// The muxer can write both tracks: every sample's size fits its 32-bit
/// field, all data fits 64-bit offsets after the initial boxes, and
/// `finalize` succeeds on the samples of the plan.
pub open spec fn mux_can_finish(video: Option<VideoOutput>, audio: Option<AudioOutput>, video_timescale: Option<u32>) -> bool {
    let vs = video_samples(video);
    let aus = audio_samples(audio);
    &&& sizes_fit(vs, aus)
    &&& initial_box_bytes().len() + total_bytes(vs, aus) <= u64::MAX
    &&& forall|plan: Seq<PlannedSample>|
        #[trigger] is_mux_plan(
            plan,
            initial_box_bytes().len() as u64,
            vs,
            timescale_or_one(video_timescale),
            aus,
            rate_or_one(audio),
        ) ==> mp4_finalized(logged_plan(plan, video, audio)) is Some
}

/// Runs the MP4 muxer over both tracks: starts the file with the muxer's
/// initial boxes, appends every sample as laid out by `plan_mux` from the
/// end of those boxes, the first sample of each track with that track's
/// sample entry, and finalizes. It succeeds when `mux_can_finish`; errors
/// of the muxer become `Message` errors ("mux append video: ", "mux append
/// audio: ", "mux finalize: " followed by the muxer's text), and data
/// beyond 64-bit file offsets is refused the same way.
pub fn mux_tracks(
    video: &Option<VideoOutput>,
    audio: &Option<AudioOutput>,
    video_timescale: Option<u32>,
) -> (r: Result<MuxedFile, Error>)
    requires
        video.is_some() ==> (video_timescale matches Some(t) && t > 0),
        audio matches Some(a) ==> a.sample_rate > 0,
        entries_fit(*video, *audio),
        video_samples(*video).len() + audio_samples(*audio).len() <= u32::MAX,
    ensures
        mux_can_finish(*video, *audio, video_timescale) ==> r is Ok,
        r matches Ok(f) ==> f.initial_bytes@ == initial_box_bytes() && is_mux_plan(
            f.samples@,
            initial_box_bytes().len() as u64,
            video_samples(*video),
            timescale_or_one(video_timescale),
            audio_samples(*audio),
            rate_or_one(*audio),
        ),
        r matches Ok(f) ==> f.appended@ == logged_plan(f.samples@, *video, *audio) && mp4_finalized(f.appended@)
            == Some(f.finalized.deep_view()),
        r matches Err(e) ==> (e matches Error::Message(m) && ((starts_with(m@, "mux finalize: "@) && exists|
            plan: Seq<PlannedSample>|
            #![trigger logged_plan(plan, *video, *audio)]
            is_mux_plan(
                plan,
                initial_box_bytes().len() as u64,
                video_samples(*video),
                timescale_or_one(video_timescale),
                audio_samples(*audio),
                rate_or_one(*audio),
            ) && mp4_finalized(logged_plan(plan, *video, *audio)) is None) || (m@
            == "mux data exceeds 64-bit file offsets"@ && initial_box_bytes().len() + total_bytes(
            video_samples(*video),
            audio_samples(*audio),
        ) > u64::MAX) || (!sizes_fit(video_samples(*video), audio_samples(*audio)) && (starts_with(
            m@,
            "mux append video: "@,
        ) || starts_with(m@, "mux append audio: "@))))),
{
    let ghost vs = video_samples(*video);
    let ghost aus = audio_samples(*audio);
    let ghost vts: u32 = timescale_or_one(video_timescale);
    let ghost ats: u32 = rate_or_one(*audio);
    let mut muxer = match new_muxer() {
        Ok(m) => m,
        Err(e) => return Err(prefixed_message("muxer init: ", mux_error_text(&e))),
    };
    let initial_bytes = muxer_initial_bytes(&muxer);
    let initial_len = initial_bytes.len() as u64;
    assert(initial_len == initial_box_bytes().len());
    let total = match sample_bytes(video, audio) {
        Some(t) => t,
        None => return Err(Error::Message(String::from_str("mux data exceeds 64-bit file offsets"))),
    };
    if initial_len > u64::MAX - total {
        return Err(Error::Message(String::from_str("mux data exceeds 64-bit file offsets")));
    }
    let plan = plan_mux(initial_len, video, audio, video_timescale);
    let mut k: usize = 0;
    while k < plan.len()
        invariant
            k <= plan@.len(),
            vs == video_samples(*video),
            aus == audio_samples(*audio),
            vts == timescale_or_one(video_timescale),
            ats == rate_or_one(*audio),
            video.is_some() ==> vts > 0,
            audio.is_some() ==> ats > 0,
            entries_fit(*video, *audio),
            initial_len == initial_box_bytes().len(),
            is_mux_plan(plan@, initial_len, vs, vts, aus, ats),
            initial_len + bytes_before(plan@, plan@.len() as int) <= u64::MAX,
            muxer.position() == initial_len + bytes_before(plan@, k as int),
            !muxer.finalized(),
            muxer.log() == logged_plan(plan@.take(k as int), *video, *audio),
            forall|kind: MediaKind| #[trigger] muxer.timescales().contains_key(kind) <==> exists|j: int|
                0 <= j < k && plan@[j].kind == kind,
            forall|kind: MediaKind| #[trigger] muxer.timescales().contains_key(kind) ==> muxer.timescales()[kind]
                == (if kind == MediaKind::Video { vts } else { ats }),
            sizes_fit(vs, aus) ==> forall|j: int| 0 <= j < plan@.len() ==> #[trigger] plan@[j].data_size <= u32::MAX,
        decreases plan@.len() - k,
    {
        let p = plan[k];
        let ghost idx = merged_index(p, vs.len());
        proof {
            assert(describes(plan@[k as int], idx, vs, vts, aus, ats));
            lemma_bytes_before_monotone(plan@, k as int + 1, plan@.len() as int);
        }
        let entry = if p.with_sample_entry {
            match p.kind {
                MediaKind::Video => match video {
                    Some(v) => Some(to_sample_entry(&v.sample_entry)),
                    None => None,
                },
                _ => match audio {
                    Some(a) => Some(to_sample_entry(&a.sample_entry)),
                    None => None,
                },
            }
        } else {
            None
        };
        proof {
            if p.kind == MediaKind::Video {
                assert(idx < vs.len());
                assert(video.is_some());
            } else {
                assert(audio.is_some());
            }
            if !p.with_sample_entry {
                let j = choose|j: int| 0 <= j < k && !(plan@[j].kind != plan@[k as int].kind);
                assert(muxer.timescales().contains_key(p.kind));
            }
        }
        let s = AppendedSample {
            kind: p.kind,
            has_entry: p.with_sample_entry,
            keyframe: p.keyframe,
            timescale: p.timescale,
            duration: p.duration,
            composition_time_offset: p.composition_time_offset,
            data_offset: p.data_offset,
            data_size: p.data_size,
        };
        let ghost logged = (s, entry_params(entry));
        assert(logged == logged_plan(plan@, *video, *audio)[k as int]);
        let appended = muxer_append(&mut muxer, s, entry);
        if let Err(e) = appended {
            proof {
                assert(p.data_size > u32::MAX);
                if p.kind == MediaKind::Video {
                    assert(vs[idx].data@.len() > u32::MAX);
                } else {
                    assert(aus[idx - vs.len()].data@.len() > u32::MAX);
                }
            }
            let prefix = if p.kind == MediaKind::Video {
                "mux append video: "
            } else {
                "mux append audio: "
            };
            return Err(prefixed_message(prefix, mux_error_text(&e)));
        }
        proof {
            assert(plan@.take(k + 1) =~= plan@.take(k as int).push(p));
            assert(logged_plan(plan@.take(k + 1), *video, *audio) =~= logged_plan(plan@.take(k as int), *video, *audio).push(
                logged,
            ));
            assert forall|kind: MediaKind| #[trigger] muxer.timescales().contains_key(kind) <==> exists|j: int|
                0 <= j < k + 1 && plan@[j].kind == kind by {
                if kind == p.kind {
                    assert(plan@[k as int].kind == kind);
                }
            }
        }
        k = k + 1;
    }
    proof {
        assert(plan@.take(plan@.len() as int) =~= plan@);
    }
    let finalized = match muxer_finalize(&mut muxer) {
        Ok(f) => f,
        Err(e) => return Err(prefixed_message("mux finalize: ", mux_error_text(&e))),
    };
    Ok(MuxedFile { initial_bytes, samples: plan, finalized, appended: Ghost(muxer.log()) })
}

} // verus!
