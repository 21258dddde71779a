//! The decisions of one MP4-to-MP4 transcode that lie between reading the
//! input and writing the output.
use vstd::prelude::*;

use crate::codec::{spec_with_input_bitrates, EncodeRecipe};
use crate::demux::{DemuxedInput, RawSample};
use crate::error::{Error, IoErrorKind};
use crate::path::{file_name, join, parent, spec_file_name, spec_join, spec_parent};
use crate::params::{average_bitrate_kbps, spec_average_bitrate_kbps, total_data_len, total_duration, totals_fit};
use crate::path::{lemma_file_name_is_plain, lemma_file_name_of_join, lemma_parent_is_trimmed, lemma_parent_of_join};
use crate::text::{decimal, decimal_string, lemma_decimal_injective, lemma_decimal_is_digits};

verus! {

/// Average input bitrate of a track, when the track exists.
pub open spec fn track_bitrate(samples: Seq<RawSample>, timescale: Option<u32>) -> Option<u32> {
    match timescale {
        Some(ts) => spec_average_bitrate_kbps(samples, ts),
        None => None,
    }
}

/// Samples of both tracks fit the 64-bit sums used for averages.
pub open spec fn sums_fit(d: DemuxedInput) -> bool {
    &&& total_duration(d.video_samples@) <= u64::MAX
    &&& total_data_len(d.video_samples@) <= u64::MAX
    &&& total_duration(d.audio_samples@) <= u64::MAX
    &&& total_data_len(d.audio_samples@) <= u64::MAX
}

/// Whether the duration and size sums of both tracks fit in 64 bits.
pub fn input_sums_fit(input: &DemuxedInput) -> (r: bool)
    ensures
        r == sums_fit(*input),
{
    totals_fit(input.video_samples.as_slice()) && totals_fit(input.audio_samples.as_slice())
}

/// The recipe to encode with and the number of frames the progress counts:
/// unset bitrates take the bitrates measured on the input tracks, and the
/// progress total is the larger of the two sample counts.
pub fn plan_encode(input: &DemuxedInput, recipe: EncodeRecipe) -> (r: (EncodeRecipe, u64))
    requires
        sums_fit(*input),
    ensures
        r.0 == spec_with_input_bitrates(
            recipe,
            track_bitrate(input.video_samples@, input.video_timescale),
            track_bitrate(input.audio_samples@, input.audio_timescale),
        ),
        r.1 == if input.video_samples@.len() >= input.audio_samples@.len() {
            input.video_samples@.len()
        } else {
            input.audio_samples@.len()
        },
{
    let video_kbps = match input.video_timescale {
        Some(ts) => average_bitrate_kbps(input.video_samples.as_slice(), ts),
        None => None,
    };
    let audio_kbps = match input.audio_timescale {
        Some(ts) => average_bitrate_kbps(input.audio_samples.as_slice(), ts),
        None => None,
    };
    let resolved = recipe.with_input_bitrates(video_kbps, audio_kbps);
    let nv = input.video_samples.len();
    let na = input.audio_samples.len();
    let total = if nv >= na { nv as u64 } else { na as u64 };
    (resolved, total)
}

/// The track an encode produced, or none when the track was absent or its
/// encode failed (a failed track is left out of the output).
pub fn usable_track<T>(encoded: Result<Option<T>, Error>) -> (r: Option<T>)
    ensures
        r == match encoded {
            Ok(Some(t)) => Some(t),
            _ => None::<T>,
        },
{
    match encoded {
        Ok(Some(t)) => Some(t),
        _ => None,
    }
}

/// The outcome of one track's encode: `None` when the track has no
/// samples and was not encoded, the encoded track, or, when the encode
/// failed with `message`, a `TrackEncode` error naming the track.
pub fn track_outcome<T>(track: &str, encoded: Option<Result<T, String>>) -> (r: Result<Option<T>, Error>)
    ensures
        match encoded {
            None => r matches Ok(None),
            Some(Ok(t)) => r == Ok::<Option<T>, Error>(Some(t)),
            Some(Err(m)) => r matches Err(Error::TrackEncode { track: k, message: g }) && k@ == track@ && g@ == m@,
        },
{
    match encoded {
        None => Ok(None),
        Some(Ok(t)) => Ok(Some(t)),
        Some(Err(message)) => Err(Error::TrackEncode { track: String::from_str(track), message }),
    }
}

/// What happens once the tracks are encoded.
#[derive(Debug, Clone, Copy, PartialEq, Eq, Structural)]
pub enum FinishAction {
    /// Neither track was encoded (each was absent or failed): nothing is
    /// written and the job fails with `nothing_encoded_error`.
    NothingEncoded,
    /// The output exists and may not be replaced: the job fails.
    RefuseExisting,
    /// Write the output file.
    Write,
}

/// Decides the end of a transcode from which tracks were encoded, whether
/// replacing the output is allowed, and whether the output exists.
pub fn finish_action(has_video: bool, has_audio: bool, overwrite: bool, output_exists: bool) -> (a: FinishAction)
    ensures
        a == if !has_video && !has_audio {
            FinishAction::NothingEncoded
        } else if !overwrite && output_exists {
            FinishAction::RefuseExisting
        } else {
            FinishAction::Write
        },
{
    if !has_video && !has_audio {
        FinishAction::NothingEncoded
    } else if !overwrite && output_exists {
        FinishAction::RefuseExisting
    } else {
        FinishAction::Write
    }
}

/// The error of a job in which no track could be encoded.
pub fn nothing_encoded_error() -> (e: Error)
    ensures
        e matches Error::Message(m) && m@ == "no video/audio track could be encoded"@,
{
    Error::Message(String::from_str("no video/audio track could be encoded"))
}

/// The error of an output that exists and may not be replaced.
pub fn output_exists_error(output: &str) -> (e: Error)
    ensures
        e matches Error::Io { kind, message } && kind == IoErrorKind::AlreadyExists && message@
            == "output file already exists: "@ + output@,
{
    let mut m = String::from_str("output file already exists: ");
    m.append(output);
    Error::Io { kind: IoErrorKind::AlreadyExists, message: m }
}

/// Name of the temporary file an output is first written to:
/// ".<output file name>.<pid>.<counter>.tmp".
pub open spec fn temp_file_name(name: Seq<char>, pid: u32, counter: u64) -> Seq<char> {
    "."@ + name + "."@ + decimal(pid as nat) + "."@ + decimal(counter as nat) + ".tmp"@
}

/// The temporary file of an output lies in the output's directory under its
/// own file name, which is never the output's file name: writing it leaves
/// the output untouched until the rename.
pub proof fn lemma_temp_file_beside_output(output: Seq<char>, pid: u32, counter: u64)
    requires
        spec_parent(output) is Some,
        spec_file_name(output) is Some,
    ensures
        ({
            let dir = spec_parent(output)->0;
            let name = spec_file_name(output)->0;
            let tmp = temp_file_name(name, pid, counter);
            &&& spec_file_name(spec_join(dir, tmp)) == Some(tmp)
            &&& spec_parent(spec_join(dir, tmp)) == spec_parent(output)
            &&& tmp != name
        }),
{
    reveal_strlit(".");
    reveal_strlit(".tmp");
    let dir = spec_parent(output)->0;
    let name = spec_file_name(output)->0;
    let tmp = temp_file_name(name, pid, counter);
    lemma_file_name_is_plain(output);
    lemma_decimal_is_digits(pid as nat);
    lemma_decimal_is_digits(counter as nat);
    let a = decimal(pid as nat);
    let b = decimal(counter as nat);
    assert(tmp =~= seq!['.'] + name + seq!['.'] + a + seq!['.'] + b + seq!['.', 't', 'm', 'p']);
    assert forall|i: int| 0 <= i < tmp.len() implies tmp[i] != '/' by {
        let n0 = 1 + name.len();
        let n1 = n0 + 1 + a.len();
        let n2 = n1 + 1 + b.len();
        if 1 <= i < n0 {
            assert(tmp[i] == name[i - 1]);
        } else if n0 + 1 <= i < n1 {
            assert(tmp[i] == a[i - n0 - 1]);
        } else if n1 + 1 <= i < n2 {
            assert(tmp[i] == b[i - n1 - 1]);
        }
    }
    assert(tmp[tmp.len() - 1] == 'p');
    lemma_file_name_of_join(dir, tmp);
    lemma_parent_is_trimmed(output);
    lemma_parent_of_join(dir, tmp);
    assert(tmp.len() > name.len());
}

/// Temporary files of one output made by one process with different
/// counters have different paths.
pub proof fn lemma_temp_paths_differ(output: Seq<char>, pid: u32, c1: u64, c2: u64)
    requires
        spec_parent(output) is Some,
        spec_file_name(output) is Some,
        c1 != c2,
    ensures
        ({
            let dir = spec_parent(output)->0;
            let name = spec_file_name(output)->0;
            spec_join(dir, temp_file_name(name, pid, c1)) != spec_join(dir, temp_file_name(name, pid, c2))
        }),
{
    reveal_strlit(".");
    reveal_strlit(".tmp");
    let dir = spec_parent(output)->0;
    let name = spec_file_name(output)->0;
    let t1 = temp_file_name(name, pid, c1);
    let t2 = temp_file_name(name, pid, c2);
    lemma_temp_file_beside_output(output, pid, c1);
    lemma_temp_file_beside_output(output, pid, c2);
    if t1 == t2 {
        let head = "."@ + name + "."@ + decimal(pid as nat) + "."@;
        let d1 = decimal(c1 as nat);
        let d2 = decimal(c2 as nat);
        assert(t1 =~= head + d1 + ".tmp"@);
        assert(t2 =~= head + d2 + ".tmp"@);
        assert(d1.len() == d2.len());
        assert(d1 =~= t1.subrange(head.len() as int, (head.len() + d1.len()) as int));
        assert(d2 =~= t2.subrange(head.len() as int, (head.len() + d2.len()) as int));
        lemma_decimal_injective(c1 as nat, c2 as nat);
    }
}

/// Path of the temporary file for `output`, in the output's directory and
/// unique per process id and counter; a `Message` error when the output
/// has no directory or no file name.
pub fn temp_output_path(output: &str, pid: u32, counter: u64) -> (r: Result<String, Error>)
    ensures
        match (spec_parent(output@), spec_file_name(output@)) {
            (Some(dir), Some(name)) => r matches Ok(p) && p@ == spec_join(dir, temp_file_name(name, pid, counter)),
            _ => r matches Err(e) && e is Message,
        },
{
    let dir = match parent(output) {
        Some(d) => d,
        None => return Err(Error::Message(String::from_str("output has no parent directory"))),
    };
    let name = match file_name(output) {
        Some(n) => n,
        None => return Err(Error::Message(String::from_str("output has no file name"))),
    };
    let mut tmp = String::from_str(".");
    tmp.append(name.as_str());
    tmp.append(".");
    let pid_text = decimal_string(pid as u64);
    tmp.append(pid_text.as_str());
    tmp.append(".");
    let counter_text = decimal_string(counter);
    tmp.append(counter_text.as_str());
    tmp.append(".tmp");
    Ok(join(dir.as_str(), tmp.as_str()))
}

} // verus!
