//! Sample entries of the output file and parameters read from the input.

use mp4dropxpd::demux::RawSample;
use mp4dropxpd::error::Error;
use mp4dropxpd::params::{
    audio_decoder_params, audio_params_of, average_bitrate_kbps, average_duration, copy_stride,
    extract_h265_params, first_sample_entry, h265_parameter_sets, plane_fits, resolution_of, totals_fit,
    video_decoder_params, AudioDecoderCodec, EntryCodec, EntryInfo, VideoDecoderParams,
};
use mp4dropxpd::sample_entry::{
    build_aac_audio_specific_config, build_av01_sample_entry, build_avc1_sample_entry, build_hev1_sample_entry,
    build_mp4a_sample_entry, build_opus_sample_entry, sample_entry_fits, sampling_frequency_index, AudioFields, OpusConfig,
    SampleEntryParams, VisualFields,
};

fn raw(len: usize, duration: u32, entry: Option<EntryInfo>) -> RawSample {
    RawSample {
        data: vec![0u8; len],
        timestamp: 0,
        duration,
        keyframe: true,
        composition_time_offset: None,
        sample_entry: entry,
    }
}

fn entry(codec: EntryCodec) -> EntryInfo {
    EntryInfo {
        codec,
        resolution: None,
        sample_rate: None,
        channel_count: None,
        avc_sps_list: Vec::new(),
        avc_pps_list: Vec::new(),
        hevc_arrays: Vec::new(),
    }
}

#[test]
fn sampling_frequency_index_follows_the_table() {
    assert_eq!(sampling_frequency_index(96000), 0);
    assert_eq!(sampling_frequency_index(48000), 3);
    assert_eq!(sampling_frequency_index(44100), 4);
    assert_eq!(sampling_frequency_index(8000), 11);
    assert_eq!(sampling_frequency_index(7350), 12);
    assert_eq!(sampling_frequency_index(44000), 15);
    assert_eq!(sampling_frequency_index(0), 15);
}

#[test]
fn audio_specific_config_packs_type_index_and_channels() {
    // object type 2, index 3, 2 channels: 00010 0011 0010 000
    assert_eq!(build_aac_audio_specific_config(48000, 2), vec![0x11, 0x90]);
    // index 4: 00010 0100 0010 000
    assert_eq!(build_aac_audio_specific_config(44100, 2), vec![0x12, 0x10]);
    assert_eq!(build_aac_audio_specific_config(44100, 1), vec![0x12, 0x08]);
    // escape index: 00010 1111, the rate in 24 bits, 0010, 000
    assert_eq!(build_aac_audio_specific_config(44000, 2), vec![0x17, 0x80, 0x55, 0xf0, 0x10]);
    let asc = build_aac_audio_specific_config(0xabcdef, 5);
    let rate = ((asc[1] as u32 & 0x7f) << 17) | ((asc[2] as u32) << 9) | ((asc[3] as u32) << 1) | (asc[4] as u32 >> 7);
    assert_eq!(asc[0] >> 3, 2);
    assert_eq!(((asc[0] & 7) << 1) | (asc[1] >> 7), 15);
    assert_eq!(rate, 0xabcdef);
    assert_eq!((asc[4] >> 3) & 15, 5);
}

#[test]
fn audio_specific_config_reads_back() {
    for rate in [96000u32, 88200, 64000, 48000, 44100, 32000, 24000, 22050, 16000, 12000, 11025, 8000, 7350] {
        for channels in 1u8..16 {
            let asc = build_aac_audio_specific_config(rate, channels);
            assert_eq!(asc.len(), 2);
            assert_eq!(asc[0] >> 3, 2);
            let index = ((asc[0] & 7) << 1) | (asc[1] >> 7);
            assert_eq!(index, sampling_frequency_index(rate));
            assert_eq!((asc[1] >> 3) & 15, channels);
            assert_eq!(asc[1] & 7, 0);
        }
    }
}

#[test]
fn avc1_entry_takes_profile_and_level_from_the_sps() {
    let sps = [0x67u8, 0x64, 0x00, 0x1f, 0xac];
    let pps = [0x68u8, 0xee];
    match build_avc1_sample_entry(&sps, &pps, 1920, 1080) {
        SampleEntryParams::Avc1 { visual, avcc } => {
            assert_eq!(visual, VisualFields { width: 1920, height: 1080 });
            assert_eq!(avcc.avc_profile_indication, 100);
            assert_eq!(avcc.profile_compatibility, 0);
            assert_eq!(avcc.avc_level_indication, 31);
            assert_eq!(avcc.length_size_minus_one, 3);
            assert_eq!(avcc.sps_list, vec![sps.to_vec()]);
            assert_eq!(avcc.pps_list, vec![pps.to_vec()]);
            assert_eq!(avcc.chroma_format, Some(1));
            assert_eq!(avcc.bit_depth_luma_minus8, Some(0));
            assert_eq!(avcc.bit_depth_chroma_minus8, Some(0));
            assert!(avcc.sps_ext_list.is_empty());
        }
        other => panic!("unexpected: {other:?}"),
    }
}

#[test]
fn avc1_entry_of_a_short_baseline_sps_uses_defaults() {
    match build_avc1_sample_entry(&[0x67u8, 66], &[1u8], 320, 240) {
        SampleEntryParams::Avc1 { avcc, .. } => {
            assert_eq!(avcc.avc_profile_indication, 66);
            assert_eq!(avcc.profile_compatibility, 0);
            assert_eq!(avcc.avc_level_indication, 30);
            assert_eq!(avcc.chroma_format, None);
            assert_eq!(avcc.bit_depth_luma_minus8, None);
        }
        other => panic!("unexpected: {other:?}"),
    }
    match build_avc1_sample_entry(&[], &[], 2, 2) {
        SampleEntryParams::Avc1 { avcc, .. } => assert_eq!(avcc.avc_profile_indication, 66),
        other => panic!("unexpected: {other:?}"),
    }
}

#[test]
fn hev1_entry_holds_vps_sps_pps_arrays() {
    match build_hev1_sample_entry(&[1, 2], &[3], &[4, 5, 6], 640, 360) {
        SampleEntryParams::Hev1 { visual, hvcc } => {
            assert_eq!(visual, VisualFields { width: 640, height: 360 });
            assert_eq!(hvcc.general_profile_idc, 1);
            assert_eq!(hvcc.chroma_format_idc, 1);
            assert_eq!(hvcc.length_size_minus_one, 3);
            let types: Vec<u8> = hvcc.nalu_arrays.iter().map(|a| a.nal_unit_type).collect();
            assert_eq!(types, vec![32, 33, 34]);
            assert_eq!(hvcc.nalu_arrays[0].nalus, vec![vec![1u8, 2]]);
            assert_eq!(hvcc.nalu_arrays[1].nalus, vec![vec![3u8]]);
            assert_eq!(hvcc.nalu_arrays[2].nalus, vec![vec![4u8, 5, 6]]);
        }
        other => panic!("unexpected: {other:?}"),
    }
}

#[test]
fn av01_entry_carries_the_sequence_header() {
    match build_av01_sample_entry(&[0x0a, 0x0b], 1280, 720) {
        SampleEntryParams::Av01 { visual, av1c } => {
            assert_eq!(visual, VisualFields { width: 1280, height: 720 });
            assert_eq!(av1c.seq_profile, 0);
            assert_eq!(av1c.chroma_subsampling_x, 1);
            assert_eq!(av1c.chroma_subsampling_y, 1);
            assert_eq!(av1c.initial_presentation_delay_minus_one, None);
            assert_eq!(av1c.config_obus, vec![0x0a, 0x0b]);
        }
        other => panic!("unexpected: {other:?}"),
    }
}

#[test]
fn mp4a_entry_holds_the_audio_specific_config() {
    match build_mp4a_sample_entry(48000, 2) {
        SampleEntryParams::Mp4a { audio, es } => {
            assert_eq!(audio, AudioFields { channel_count: 2, sample_rate: 48000 });
            assert_eq!(es.es_id, 1);
            assert_eq!(es.object_type_indication, 0x40);
            assert_eq!(es.stream_type, 5);
            assert_eq!(es.decoder_specific_info, Some(vec![0x11, 0x90]));
        }
        other => panic!("unexpected: {other:?}"),
    }
}

#[test]
fn opus_entry_holds_pre_skip_and_rate() {
    match build_opus_sample_entry(48000, 2, 312) {
        SampleEntryParams::Opus { audio, dops } => {
            assert_eq!(audio, AudioFields { channel_count: 2, sample_rate: 48000 });
            assert_eq!(dops, OpusConfig { output_channel_count: 2, pre_skip: 312, input_sample_rate: 48000, output_gain: 0 });
        }
        other => panic!("unexpected: {other:?}"),
    }
}

#[test]
fn first_sample_entry_skips_samples_without_one() {
    let samples = vec![raw(1, 1, None), raw(1, 1, Some(entry(EntryCodec::Av01))), raw(1, 1, Some(entry(EntryCodec::Opus)))];
    assert_eq!(first_sample_entry(&samples).unwrap().codec, EntryCodec::Av01);
    let none = vec![raw(1, 1, None)];
    assert!(matches!(first_sample_entry(&none), Err(Error::Message(_))));
    assert!(matches!(first_sample_entry(&[]), Err(Error::Message(_))));
}

#[test]
fn resolution_and_audio_parameters_of_an_entry() {
    let mut e = entry(EntryCodec::Avc1);
    assert!(matches!(resolution_of(&e), Err(Error::Message(_))));
    e.resolution = Some((640, 480));
    assert_eq!(resolution_of(&e).unwrap(), (640, 480));
    let mut a = entry(EntryCodec::Mp4a);
    a.sample_rate = Some(44100);
    assert!(matches!(audio_params_of(&a), Err(Error::Message(_))));
    a.channel_count = Some(2);
    assert_eq!(audio_params_of(&a).unwrap(), (44100, 2));
}

#[test]
fn h265_parameter_sets_take_the_first_unit_of_each_type() {
    let arrays = vec![(33u8, vec![vec![3u8], vec![9]]), (32u8, vec![vec![1u8]]), (34u8, vec![vec![4u8]]), (32u8, vec![vec![7u8]])];
    assert_eq!(h265_parameter_sets(&arrays).unwrap(), (vec![1], vec![3], vec![4]));
    let missing_pps = vec![(32u8, vec![vec![1u8]]), (33u8, vec![vec![3u8]])];
    assert!(matches!(h265_parameter_sets(&missing_pps), Err(Error::Message(_))));
    let empty_first = vec![(32u8, vec![]), (32u8, vec![vec![1u8]]), (33u8, vec![vec![3u8]]), (34u8, vec![vec![4u8]])];
    assert!(h265_parameter_sets(&empty_first).is_err());
    let mut e = entry(EntryCodec::Hvc1);
    e.hevc_arrays = arrays.clone();
    assert_eq!(extract_h265_params(&e).unwrap(), (vec![1], vec![3], vec![4]));
    let mut not_hevc = entry(EntryCodec::Avc1);
    not_hevc.hevc_arrays = arrays;
    assert!(matches!(extract_h265_params(&not_hevc), Err(Error::Message(_))));
}

#[test]
fn video_decoder_follows_the_entry_codec() {
    let mut avc = entry(EntryCodec::Avc1);
    assert!(matches!(video_decoder_params(&avc), Err(Error::Message(_))));
    avc.avc_sps_list = vec![vec![0x67, 1], vec![0x67, 2]];
    assert!(video_decoder_params(&avc).is_err());
    avc.avc_pps_list = vec![vec![0x68]];
    match video_decoder_params(&avc).unwrap() {
        VideoDecoderParams::H264 { sps, pps } => {
            assert_eq!(sps, vec![0x67, 1]);
            assert_eq!(pps, vec![0x68]);
        }
        other => panic!("unexpected: {other:?}"),
    }
    let mut hev = entry(EntryCodec::Hev1);
    hev.hevc_arrays = vec![(32u8, vec![vec![1u8]]), (33u8, vec![vec![2u8]]), (34u8, vec![vec![3u8]])];
    assert!(matches!(video_decoder_params(&hev).unwrap(), VideoDecoderParams::Hevc { .. }));
    assert!(matches!(video_decoder_params(&entry(EntryCodec::Av01)).unwrap(), VideoDecoderParams::Av1));
    assert!(matches!(video_decoder_params(&entry(EntryCodec::Mp4a)), Err(Error::Message(_))));
}

#[test]
fn audio_decoder_follows_the_entry_codec() {
    let mut a = entry(EntryCodec::Mp4a);
    a.sample_rate = Some(48000);
    a.channel_count = Some(2);
    assert_eq!(audio_decoder_params(&a).unwrap(), (AudioDecoderCodec::AacLc, 48000, 2));
    a.codec = EntryCodec::Opus;
    assert_eq!(audio_decoder_params(&a).unwrap(), (AudioDecoderCodec::Opus, 48000, 2));
    a.codec = EntryCodec::Other;
    assert!(matches!(audio_decoder_params(&a), Err(Error::Message(_))));
    a.codec = EntryCodec::Mp4a;
    a.channel_count = None;
    assert!(audio_decoder_params(&a).is_err());
}

#[test]
fn copy_stride_drops_row_padding() {
    let src = [1u8, 2, 3, 0, 4, 5, 6, 0, 7, 8, 9];
    assert_eq!(copy_stride(&src, 4, 3, 3), vec![1, 2, 3, 4, 5, 6, 7, 8, 9]);
    assert_eq!(copy_stride(&src, 3, 3, 2), vec![1, 2, 3, 0, 4, 5]);
    assert!(copy_stride(&src, 4, 3, 0).is_empty());
}

#[test]
fn averages_of_input_samples() {
    let samples = vec![raw(1000, 1000, None), raw(3000, 2000, None)];
    assert_eq!(average_duration(&samples), 1500);
    assert_eq!(average_duration(&[]), 0);
    // 4000 bytes = 32000 bits over 3000 ticks at 90000/s (1/30 s): 960 kbps
    assert_eq!(average_bitrate_kbps(&samples, 90000), Some(960));
    assert_eq!(average_bitrate_kbps(&samples, 0), None);
    assert_eq!(average_bitrate_kbps(&[], 90000), None);
    assert_eq!(average_bitrate_kbps(&[raw(10, 0, None)], 90000), None);
}

#[test]
fn plane_fits_exactly_when_copy_stride_may_copy() {
    assert!(plane_fits(11, 4, 3, 3));
    assert!(!plane_fits(10, 4, 3, 3));
    assert!(plane_fits(9, 3, 3, 3));
    assert!(!plane_fits(8, 3, 3, 3));
    assert!(plane_fits(0, 7, 5, 0));
    assert!(!plane_fits(usize::MAX, 2, usize::MAX, 2));
    assert!(!plane_fits(usize::MAX, usize::MAX, 1, 3));
}

#[test]
fn totals_fit_detects_overflowing_sums() {
    assert!(totals_fit(&[raw(3, u32::MAX, None), raw(3, u32::MAX, None)]));
    assert!(totals_fit(&[]));
}

#[test]
fn built_entries_fit_their_bit_fields() {
    assert!(sample_entry_fits(&build_avc1_sample_entry(&[0x67, 0x64, 0, 0x1f], &[0x68], 16, 16)));
    assert!(sample_entry_fits(&build_hev1_sample_entry(&[1], &[2], &[3], 16, 16)));
    assert!(sample_entry_fits(&build_av01_sample_entry(&[0x0a], 16, 16)));
    assert!(sample_entry_fits(&build_mp4a_sample_entry(48000, 2)));
    assert!(sample_entry_fits(&build_opus_sample_entry(48000, 2, 312)));
    let mut e = build_hev1_sample_entry(&[1], &[2], &[3], 16, 16);
    if let SampleEntryParams::Hev1 { hvcc, .. } = &mut e {
        hvcc.nalu_arrays[1].nal_unit_type = 64;
    }
    assert!(!sample_entry_fits(&e));
    let mut a = build_avc1_sample_entry(&[0x67, 0x64, 0, 0x1f], &[0x68], 16, 16);
    if let SampleEntryParams::Avc1 { avcc, .. } = &mut a {
        avcc.length_size_minus_one = 4;
    }
    assert!(!sample_entry_fits(&a));
}
