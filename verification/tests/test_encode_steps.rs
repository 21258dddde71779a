//! Steps of an encode: progress, planning, track results, errors, and the
//! audio and video helpers around the codec libraries.

use mp4dropxpd::audio::{durations_fit, opus_chunking, opus_sample_rate, padded_chunk, timed_audio_samples, OpusChunking};
use mp4dropxpd::codec::{AudioCodec, EncodeRecipe, VideoCodec};
use mp4dropxpd::demux::{DemuxedInput, RawSample};
use mp4dropxpd::encode::{EncodeJob, JobProgress};
use mp4dropxpd::error::{Error, IoErrorKind};
use mp4dropxpd::mux::MediaKind;
use mp4dropxpd::sample_entry::SampleEntryParams;
use mp4dropxpd::transcode::{
    finish_action, input_sums_fit, nothing_encoded_error, output_exists_error, plan_encode, track_outcome, usable_track,
    FinishAction,
};
use mp4dropxpd::video::{
    av1_frame_timing, build_video_samples, drain_step, finish_av1_encode, finish_h264_encode, finish_h265_encode,
    frame_rate, Av1Frame, DrainAction, EncodedVideoFrame,
};

fn raw(len: usize, timestamp: u64, duration: u32) -> RawSample {
    RawSample {
        data: vec![1u8; len],
        timestamp,
        duration,
        keyframe: false,
        composition_time_offset: Some(timestamp as i64),
        sample_entry: None,
    }
}

fn frame(data: u8, keyframe: bool, params: bool) -> EncodedVideoFrame {
    let list = if params { vec![vec![data]] } else { Vec::new() };
    EncodedVideoFrame {
        data: vec![data],
        keyframe,
        vps_list: list.clone(),
        sps_list: list.clone(),
        pps_list: list,
    }
}

#[test]
fn job_keeps_its_parts() {
    let j = EncodeJob::new("a.mp4".to_string(), "a.AV1_opus.mp4".to_string(), EncodeRecipe::default(), true);
    assert_eq!(j.input, "a.mp4");
    assert_eq!(j.output, "a.AV1_opus.mp4");
    assert_eq!(j.recipe, EncodeRecipe::default());
    assert!(j.overwrite);
}

#[test]
fn progress_is_capped_at_the_total() {
    let mut p = JobProgress::new();
    assert_eq!(p.ratio_parts(), (0, 1));
    p.add_processed(5);
    assert_eq!(p.ratio_parts(), (0, 1));
    p.set_total(10);
    assert_eq!(p.ratio_parts(), (5, 10));
    p.add_processed(20);
    assert_eq!(p.ratio_parts(), (10, 10));
    let d = JobProgress::default();
    assert_eq!(d.ratio_parts(), (0, 1));
}

#[test]
fn progress_count_wraps_at_64_bits() {
    let mut p = JobProgress::new();
    p.set_total(3);
    p.add_processed(u64::MAX);
    p.add_processed(2);
    assert_eq!(p.ratio_parts(), (1, 3));
}

#[test]
fn plan_encode_measures_unset_bitrates_and_counts_frames() {
    let input = DemuxedInput {
        tracks: vec![(MediaKind::Video, 90000), (MediaKind::Audio, 48000)],
        video_samples: vec![raw(1000, 0, 1000), raw(3000, 1000, 2000)],
        audio_samples: vec![raw(100, 0, 960), raw(100, 960, 960), raw(100, 1920, 960)],
        video_timescale: Some(90000),
        audio_timescale: Some(48000),
    };
    let recipe = EncodeRecipe { audio: AudioCodec::Aac, video: VideoCodec::H264, video_bitrate_kbps: 0, audio_bitrate_kbps: 64 };
    let (resolved, total) = plan_encode(&input, recipe);
    assert_eq!(resolved.video_bitrate_kbps, 960);
    assert_eq!(resolved.audio_bitrate_kbps, 64);
    assert_eq!(resolved.video, VideoCodec::H264);
    assert_eq!(total, 3);
}

#[test]
fn plan_encode_without_audio_track_keeps_audio_unset() {
    let input = DemuxedInput {
        tracks: vec![(MediaKind::Video, 1000)],
        video_samples: vec![raw(125, 0, 1000)],
        audio_samples: Vec::new(),
        video_timescale: Some(1000),
        audio_timescale: None,
    };
    let (resolved, total) = plan_encode(&input, EncodeRecipe::default());
    assert_eq!(resolved.video_bitrate_kbps, 1);
    assert_eq!(resolved.audio_bitrate_kbps, 0);
    assert_eq!(total, 1);
}

#[test]
fn failed_or_absent_tracks_are_left_out() {
    assert_eq!(usable_track::<u8>(Ok(Some(3))), Some(3));
    assert_eq!(usable_track::<u8>(Ok(None)), None);
    let failed: Result<Option<u8>, Error> = Err(Error::TrackEncode { track: "video".to_string(), message: "x".to_string() });
    assert_eq!(usable_track(failed), None);
}

#[test]
fn finish_refuses_an_existing_output_unless_overwriting() {
    assert_eq!(finish_action(false, false, false, true), FinishAction::NothingEncoded);
    assert_eq!(finish_action(false, false, true, false), FinishAction::NothingEncoded);
    match nothing_encoded_error() {
        Error::Message(m) => assert_eq!(m, "no video/audio track could be encoded"),
        other => panic!("unexpected: {other:?}"),
    }
    assert_eq!(finish_action(true, false, false, true), FinishAction::RefuseExisting);
    assert_eq!(finish_action(false, true, true, true), FinishAction::Write);
    assert_eq!(finish_action(true, true, false, false), FinishAction::Write);
    match output_exists_error("/tmp/o.mp4") {
        Error::Io { kind, message } => {
            assert_eq!(kind, IoErrorKind::AlreadyExists);
            assert_eq!(message, "output file already exists: /tmp/o.mp4");
        }
        other => panic!("unexpected: {other:?}"),
    }
}

#[test]
fn error_texts() {
    assert_eq!(Error::NoTrack.to_string(), "no video/audio track in input");
    assert_eq!(Error::Message("m".to_string()).to_string(), "m");
    assert_eq!(
        Error::Io { kind: IoErrorKind::PermissionDenied, message: "denied".to_string() }.to_string(),
        "io error: denied"
    );
    assert_eq!(Error::UnsupportedFormat { path: "a.mov".to_string() }.to_string(), "unsupported input: a.mov");
    assert_eq!(
        Error::InvalidSampleRange { start: 10, end: 120, file_size: 100 }.to_string(),
        "sample data out of range: 10..120, file size 100"
    );
    assert_eq!(
        Error::DrainTimeout { elapsed: "30s".to_string(), expected: 5, received: 3 }.to_string(),
        "video encoder stalled: elapsed 30s, expected 5 frames, received 3"
    );
    assert_eq!(
        Error::TrackEncode { track: "audio".to_string(), message: "bad".to_string() }.to_string(),
        "audio encode failed: bad"
    );
    assert_eq!(Error::VideoToolbox("v".to_string()).to_string(), "video toolbox: v");
    assert_eq!(Error::AudioToolbox("a".to_string()).to_string(), "audio toolbox: a");
    assert_eq!(Error::Opus("o".to_string()).to_string(), "opus: o");
    assert_eq!(Error::SvtAv1("s".to_string()).to_string(), "svt-av1: s");
}

#[test]
fn opus_rate_falls_back_to_48k() {
    assert_eq!(opus_sample_rate(16000), 16000);
    assert_eq!(opus_sample_rate(48000), 48000);
    assert_eq!(opus_sample_rate(44100), 48000);
    assert_eq!(opus_sample_rate(0), 48000);
}

#[test]
fn pcm_is_cut_into_frames_with_a_padded_tail() {
    assert_eq!(opus_chunking(2000, 480, 2), OpusChunking { chunk_len: 960, full_frames: 2, padded_tail: true });
    assert_eq!(opus_chunking(1920, 480, 2), OpusChunking { chunk_len: 960, full_frames: 2, padded_tail: false });
    assert_eq!(padded_chunk(&[1, 2, 3, 4, 5], 3, 4), vec![4, 5, 0, 0]);
    assert_eq!(padded_chunk(&[1, 2], 2, 3), vec![0, 0, 0]);
}

#[test]
fn audio_frames_are_laid_end_to_end() {
    let out = timed_audio_samples(vec![(vec![1u8], 960), (vec![2u8, 3], 960), (vec![4u8], 480)]);
    let ts: Vec<u64> = out.iter().map(|s| s.timestamp).collect();
    assert_eq!(ts, vec![0, 960, 1920]);
    assert_eq!(out[1].data, vec![2, 3]);
    assert_eq!(out[2].duration, 480);
    assert!(out.iter().all(|s| s.composition_time_offset.is_none()));
}

#[test]
fn frame_rate_is_timescale_over_mean_duration() {
    let samples = vec![raw(1, 0, 3000), raw(1, 3000, 3000), raw(1, 6000, 3003)];
    assert_eq!(frame_rate(Some(90000), &samples), (90000, 3001));
    assert_eq!(frame_rate(None, &samples), (30, 3001));
    assert_eq!(frame_rate(Some(25), &[]), (25, 1));
}

#[test]
fn video_samples_take_input_timing_in_order() {
    let raws = vec![raw(1, 0, 10), raw(1, 10, 11), raw(1, 21, 12)];
    let frames = vec![frame(7, true, true), frame(8, false, false)];
    let out = build_video_samples(&frames, &raws);
    assert_eq!(out.len(), 2);
    assert_eq!(out[1].data, vec![8]);
    assert_eq!(out[1].timestamp, 10);
    assert_eq!(out[1].duration, 11);
    assert_eq!(out[1].composition_time_offset, Some(10));
    assert!(out[0].keyframe && !out[1].keyframe);
}

#[test]
fn h264_entry_comes_from_the_first_keyframe() {
    let raws = vec![raw(1, 0, 10), raw(1, 10, 10), raw(1, 20, 10)];
    let frames = vec![frame(1, false, true), frame(2, true, true), frame(3, true, true)];
    let out = finish_h264_encode(&frames, &raws, 16, 16).unwrap();
    assert_eq!(out.samples.len(), 3);
    match out.sample_entry {
        SampleEntryParams::Avc1 { avcc, .. } => assert_eq!(avcc.sps_list, vec![vec![2u8]]),
        other => panic!("unexpected: {other:?}"),
    }
    let no_key = vec![frame(1, false, true)];
    assert!(matches!(finish_h264_encode(&no_key, &raws, 16, 16), Err(Error::Message(_))));
    let key_without_sets = vec![frame(1, true, false), frame(2, true, true)];
    assert!(finish_h264_encode(&key_without_sets, &raws, 16, 16).is_err());
}

#[test]
fn h265_entry_comes_from_the_first_keyframe() {
    let raws = vec![raw(1, 0, 10), raw(1, 10, 10)];
    let frames = vec![frame(5, true, true), frame(6, false, false)];
    let out = finish_h265_encode(&frames, &raws, 8, 8).unwrap();
    match out.sample_entry {
        SampleEntryParams::Hev1 { hvcc, .. } => assert_eq!(hvcc.nalu_arrays[0].nalus, vec![vec![5u8]]),
        other => panic!("unexpected: {other:?}"),
    }
    assert!(finish_h265_encode(&[], &raws, 8, 8).is_err());
}

#[test]
fn av1_frames_are_put_in_timestamp_order() {
    let raws = vec![raw(1, 0, 10), raw(1, 10, 10), raw(1, 20, 10)];
    assert_eq!(av1_frame_timing(1, &raws), (10, 10, Some(10)));
    assert_eq!(av1_frame_timing(9, &raws), (0, 1, None));
    let frames = vec![
        Av1Frame { pts: 2, data: vec![2], keyframe: false },
        Av1Frame { pts: 0, data: vec![0], keyframe: true },
        Av1Frame { pts: 1, data: vec![1], keyframe: false },
    ];
    let out = finish_av1_encode(frames, &raws, &[9, 9], 32, 32);
    let ts: Vec<u64> = out.samples.iter().map(|s| s.timestamp).collect();
    assert_eq!(ts, vec![0, 10, 20]);
    let data: Vec<u8> = out.samples.iter().map(|s| s.data[0]).collect();
    assert_eq!(data, vec![0, 1, 2]);
    assert!(out.samples[0].keyframe);
    match out.sample_entry {
        SampleEntryParams::Av01 { av1c, .. } => assert_eq!(av1c.config_obus, vec![9, 9]),
        other => panic!("unexpected: {other:?}"),
    }
}

#[test]
fn av1_frames_with_equal_timestamps_keep_encoder_order() {
    let raws = vec![raw(1, 5, 10)];
    let frames = vec![
        Av1Frame { pts: 0, data: vec![1], keyframe: true },
        Av1Frame { pts: 0, data: vec![2], keyframe: false },
    ];
    let out = finish_av1_encode(frames, &raws, &[], 2, 2);
    let data: Vec<u8> = out.samples.iter().map(|s| s.data[0]).collect();
    assert_eq!(data, vec![1, 2]);
}

#[test]
fn drain_stops_when_done_or_stalled() {
    assert_eq!(drain_step(3, 3, false, 0), DrainAction::Done);
    assert_eq!(drain_step(3, 1, true, 40_000_000), DrainAction::Poll);
    assert_eq!(drain_step(3, 1, false, 29_999_999), DrainAction::Wait);
    assert_eq!(drain_step(3, 1, false, 30_000_000), DrainAction::TimedOut);
}

#[test]
fn audio_durations_must_fit_64_bits() {
    assert!(durations_fit(&vec![(vec![1u8], 960), (vec![2u8], u32::MAX)]));
    assert!(durations_fit(&Vec::new()));
}

#[test]
fn input_sums_of_ordinary_tracks_fit() {
    let input = DemuxedInput {
        tracks: vec![(MediaKind::Video, 1000)],
        video_samples: vec![raw(10, 0, 1000), raw(10, 1000, u32::MAX)],
        audio_samples: Vec::new(),
        video_timescale: Some(1000),
        audio_timescale: None,
    };
    assert!(input_sums_fit(&input));
}

#[test]
fn each_call_of_add_processed_counts() {
    let mut p = JobProgress::new();
    p.set_total(100);
    for c in [3u64, 0, 7, 20] {
        p.add_processed(c);
    }
    assert_eq!(p.ratio_parts(), (30, 100));
}

#[test]
fn track_outcomes() {
    let none: Option<Result<u8, String>> = None;
    assert!(matches!(track_outcome("video", none), Ok(None)));
    assert!(matches!(track_outcome("audio", Some(Ok::<u8, String>(5))), Ok(Some(5))));
    match track_outcome::<u8>("audio", Some(Err("decode failed".to_string()))) {
        Err(Error::TrackEncode { track, message }) => {
            assert_eq!(track, "audio");
            assert_eq!(message, "decode failed");
        }
        other => panic!("unexpected: {other:?}"),
    }
}
