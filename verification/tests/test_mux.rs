//! Time ordering of samples, the layout of the output file, and a round
//! trip through the MP4 library's muxer and demuxer.

use mp4dropxpd::demux::{demux_input, first_track_timescale, sample_data_range};
use mp4dropxpd::error::Error;
use mp4dropxpd::mux::{mux_tracks, plan_mux, AudioOutput, EncodedAudioSample, EncodedVideoSample, MediaKind, MuxedFile, VideoOutput};
use mp4dropxpd::order::time_order;
use mp4dropxpd::params::{extract_h265_params, EntryCodec};
use mp4dropxpd::sample_entry::{build_av01_sample_entry, build_hev1_sample_entry, build_opus_sample_entry};

fn video(samples: &[(u64, u32, usize)]) -> VideoOutput {
    VideoOutput {
        samples: samples
            .iter()
            .enumerate()
            .map(|(i, &(t, d, n))| EncodedVideoSample {
                data: vec![i as u8 + 1; n],
                keyframe: i == 0,
                timestamp: t,
                duration: d,
                composition_time_offset: None,
            })
            .collect(),
        sample_entry: build_av01_sample_entry(&[0x0a, 0x0b, 0x00, 0x00, 0x00, 0x24, 0xcf, 0x7f, 0x0d, 0xbf, 0xff, 0x30, 0x08], 64, 48),
    }
}

fn audio(samples: &[(u64, u32, usize)], rate: u32) -> AudioOutput {
    AudioOutput {
        samples: samples
            .iter()
            .enumerate()
            .map(|(i, &(t, d, n))| EncodedAudioSample {
                data: vec![0x80 + i as u8; n],
                timestamp: t,
                duration: d,
                composition_time_offset: None,
            })
            .collect(),
        sample_entry: build_opus_sample_entry(rate, 2, 312),
        sample_rate: rate,
    }
}

/// The bytes of the file a `MuxedFile` describes.
fn assemble(f: &MuxedFile, v: &Option<VideoOutput>, a: &Option<AudioOutput>) -> Vec<u8> {
    let mut out = f.initial_bytes.clone();
    for p in &f.samples {
        assert_eq!(p.data_offset as usize, out.len());
        let data = match p.kind {
            MediaKind::Video => &v.as_ref().unwrap().samples[p.index].data,
            _ => &a.as_ref().unwrap().samples[p.index].data,
        };
        out.extend_from_slice(data);
    }
    for (offset, bytes) in &f.finalized {
        let start = *offset as usize;
        if out.len() < start + bytes.len() {
            out.resize(start + bytes.len(), 0);
        }
        out[start..start + bytes.len()].copy_from_slice(bytes);
    }
    out
}

#[test]
fn time_order_merges_timescales_stably() {
    // 1/2 s, 0 s, 1/2 s (other timescale), 1/4 s
    let keys = vec![(500u64, 1000u32), (0, 1000), (24000, 48000), (250, 1000)];
    assert_eq!(time_order(&keys), vec![1, 3, 0, 2]);
    assert!(time_order(&Vec::new()).is_empty());
}

#[test]
fn plan_interleaves_by_time_and_lays_data_back_to_back() {
    let v = Some(video(&[(0, 1000, 3), (1000, 1000, 2)]));
    let a = Some(audio(&[(0, 24000, 5), (24000, 24000, 1), (48000, 24000, 4)], 48000));
    let plan = plan_mux(100, &v, &a, Some(1000));
    let order: Vec<(MediaKind, usize)> = plan.iter().map(|p| (p.kind, p.index)).collect();
    assert_eq!(
        order,
        vec![(MediaKind::Video, 0), (MediaKind::Audio, 0), (MediaKind::Audio, 1), (MediaKind::Video, 1), (MediaKind::Audio, 2)]
    );
    let offsets: Vec<u64> = plan.iter().map(|p| p.data_offset).collect();
    assert_eq!(offsets, vec![100, 103, 108, 109, 111]);
    let entries: Vec<bool> = plan.iter().map(|p| p.with_sample_entry).collect();
    assert_eq!(entries, vec![true, true, false, false, false]);
    assert_eq!(plan[1].timescale, 48000);
    assert_eq!(plan[3].timescale, 1000);
    assert_eq!(plan[4].data_size, 4);
}

#[test]
fn plan_of_one_track() {
    let a = Some(audio(&[(0, 960, 2), (960, 960, 3)], 48000));
    let plan = plan_mux(8, &None, &a, None);
    assert_eq!(plan.len(), 2);
    assert_eq!(plan[1].data_offset, 10);
    assert!(plan[0].with_sample_entry && !plan[1].with_sample_entry);
    assert!(plan_mux(0, &None, &None, None).is_empty());
}

#[test]
fn sample_ranges_must_lie_inside_the_file() {
    assert_eq!(sample_data_range(10, 5, 20).unwrap(), (10, 15));
    assert_eq!(sample_data_range(15, 5, 20).unwrap(), (15, 20));
    match sample_data_range(18, 5, 20) {
        Err(Error::InvalidSampleRange { start, end, file_size }) => assert_eq!((start, end, file_size), (18, 23, 20)),
        other => panic!("unexpected: {other:?}"),
    }
    assert!(matches!(sample_data_range(u64::MAX, 1, 20), Err(Error::Message(_))));
}

#[test]
fn first_timescale_of_a_kind() {
    let tracks = vec![(MediaKind::Subtitle, 1), (MediaKind::Audio, 44100), (MediaKind::Audio, 48000)];
    assert_eq!(first_track_timescale(&tracks, MediaKind::Audio), Some(44100));
    assert_eq!(first_track_timescale(&tracks, MediaKind::Video), None);
}

#[test]
fn random_bytes_are_not_an_mp4_file() {
    let data: Vec<u8> = (0..512u32).map(|i| (i.wrapping_mul(2654435761) >> 13) as u8).collect();
    assert!(demux_input(&data).is_err());
    assert!(demux_input(&[]).is_err());
}

#[test]
fn muxed_file_reads_back() {
    let v = Some(video(&[(0, 1000, 30), (1000, 1000, 20), (2000, 1000, 25)]));
    let a = Some(audio(&[(0, 960, 7), (960, 960, 8), (1920, 960, 9)], 48000));
    let muxed = mux_tracks(&v, &a, Some(1000)).expect("mux");
    let bytes = assemble(&muxed, &v, &a);
    let input = demux_input(&bytes).expect("demux");
    assert_eq!(input.video_timescale, Some(1000));
    assert_eq!(input.audio_timescale, Some(48000));
    let vdata: Vec<Vec<u8>> = input.video_samples.iter().map(|s| s.data.clone()).collect();
    let expected: Vec<Vec<u8>> = v.as_ref().unwrap().samples.iter().map(|s| s.data.clone()).collect();
    assert_eq!(vdata, expected);
    let adata: Vec<Vec<u8>> = input.audio_samples.iter().map(|s| s.data.clone()).collect();
    let expected: Vec<Vec<u8>> = a.as_ref().unwrap().samples.iter().map(|s| s.data.clone()).collect();
    assert_eq!(adata, expected);
    let vts: Vec<u64> = input.video_samples.iter().map(|s| s.timestamp).collect();
    assert_eq!(vts, vec![0, 1000, 2000]);
    assert!(input.video_samples[0].keyframe);
    let ventry = input.video_samples[0].sample_entry.as_ref().expect("video entry");
    assert_eq!(ventry.codec, EntryCodec::Av01);
    assert_eq!(ventry.resolution, Some((64, 48)));
    let aentry = input.audio_samples[0].sample_entry.as_ref().expect("audio entry");
    assert_eq!(aentry.codec, EntryCodec::Opus);
    assert_eq!(aentry.channel_count, Some(2));
    assert_eq!(aentry.sample_rate, Some(48000));
}

#[test]
fn audio_only_file_reads_back() {
    let a = Some(audio(&[(0, 1024, 4), (1024, 1024, 6)], 44100));
    let muxed = mux_tracks(&None, &a, None).expect("mux");
    let bytes = assemble(&muxed, &None, &a);
    let input = demux_input(&bytes).expect("demux");
    assert_eq!(input.video_timescale, None);
    assert_eq!(input.audio_timescale, Some(44100));
    assert_eq!(input.audio_samples.len(), 2);
    assert!(input.video_samples.is_empty());
}

#[test]
fn muxed_file_starts_with_the_initial_boxes() {
    let a = Some(audio(&[(0, 960, 3)], 48000));
    let muxed = mux_tracks(&None, &a, None).expect("mux");
    let mut expected: Vec<u8> = vec![0, 0, 0, 28];
    expected.extend_from_slice(b"ftypisom");
    expected.extend_from_slice(&[0, 0, 0, 0]);
    expected.extend_from_slice(b"isomiso2mp41");
    expected.extend_from_slice(&[0, 0, 0, 72]);
    expected.extend_from_slice(b"free");
    expected.extend_from_slice(&[0; 64]);
    expected.extend_from_slice(&[0, 0, 0, 1]);
    expected.extend_from_slice(b"mdat");
    expected.extend_from_slice(&[0; 8]);
    assert_eq!(muxed.initial_bytes, expected);
    assert_eq!(muxed.samples[0].data_offset, 116);
}

#[test]
fn video_without_a_keyframe_is_refused_at_finalize() {
    let mut v = video(&[(0, 1000, 3), (1000, 1000, 2)]);
    for s in v.samples.iter_mut() {
        s.keyframe = false;
    }
    let v = Some(v);
    match mux_tracks(&v, &None, Some(1000)) {
        Err(Error::Message(m)) => assert!(m.starts_with("mux finalize: "), "{m}"),
        Err(e) => panic!("unexpected error: {e:?}"),
        Ok(_) => panic!("a video track without keyframes was muxed"),
    }
}

#[test]
fn each_track_gets_its_own_sample_entry() {
    let v = Some(video(&[(0, 1000, 4)]));
    let a = Some(audio(&[(0, 960, 5)], 48000));
    let muxed = mux_tracks(&v, &a, Some(1000)).expect("mux");
    let bytes = assemble(&muxed, &v, &a);
    let input = demux_input(&bytes).expect("demux");
    let ventry = input.video_samples[0].sample_entry.as_ref().expect("video entry");
    let aentry = input.audio_samples[0].sample_entry.as_ref().expect("audio entry");
    assert_eq!(ventry.codec, EntryCodec::Av01);
    assert_eq!(aentry.codec, EntryCodec::Opus);
}

#[test]
fn hev1_parameter_sets_survive_a_file_round_trip() {
    let vps = vec![0x40, 0x01, 0x0c, 0x01];
    let sps = vec![0x42, 0x01, 0x01, 0x01, 0x60];
    let pps = vec![0x44, 0x01, 0xc1];
    let mut v = video(&[(0, 1000, 6)]);
    v.sample_entry = build_hev1_sample_entry(&vps, &sps, &pps, 320, 240);
    let v = Some(v);
    let muxed = mux_tracks(&v, &None, Some(1000)).expect("mux");
    let bytes = assemble(&muxed, &v, &None);
    let input = demux_input(&bytes).expect("demux");
    let entry = input.video_samples[0].sample_entry.as_ref().expect("video entry");
    assert_eq!(entry.codec, EntryCodec::Hev1);
    assert_eq!(entry.resolution, Some((320, 240)));
    assert_eq!(extract_h265_params(entry).expect("parameter sets"), (vps, sps, pps));
}
