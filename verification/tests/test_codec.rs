//! Codec labels, summaries and bitrate resolution of encode recipes.

use mp4dropxpd::codec::{AudioCodec, EncodeRecipe, VideoCodec};

#[test]
fn audio_codec_labels_are_technical_terms() {
    assert_eq!(AudioCodec::Aac.label(), "AAC");
    assert_eq!(AudioCodec::Opus.label(), "Opus");
}

#[test]
fn video_codec_labels_are_technical_terms() {
    assert_eq!(VideoCodec::H264.label(), "H.264");
    assert_eq!(VideoCodec::H265.label(), "H.265");
    assert_eq!(VideoCodec::Av1.label(), "AV1");
}

#[test]
fn default_recipe_is_opus_and_av1_with_automatic_bitrates() {
    let r = EncodeRecipe::default();
    assert_eq!(r.audio, AudioCodec::Opus);
    assert_eq!(r.video, VideoCodec::Av1);
    assert_eq!(r.video_bitrate_kbps, 0);
    assert_eq!(r.audio_bitrate_kbps, 0);
    assert_eq!(AudioCodec::default(), AudioCodec::Opus);
    assert_eq!(VideoCodec::default(), VideoCodec::Av1);
}

#[test]
fn summary_names_audio_then_video() {
    assert_eq!(EncodeRecipe::default().summary(), "Opus + AV1");
    let r = EncodeRecipe { audio: AudioCodec::Aac, video: VideoCodec::H265, video_bitrate_kbps: 1, audio_bitrate_kbps: 2 };
    assert_eq!(r.summary(), "AAC + H.265");
}

#[test]
fn codec_tag_names_video_then_audio() {
    assert_eq!(EncodeRecipe::default().codec_tag(), "AV1_opus");
    let r = EncodeRecipe { audio: AudioCodec::Aac, video: VideoCodec::H264, video_bitrate_kbps: 0, audio_bitrate_kbps: 0 };
    assert_eq!(r.codec_tag(), "H264_aac");
}

#[test]
fn unset_bitrates_take_the_measured_input_bitrates() {
    let r = EncodeRecipe::default().with_input_bitrates(Some(2500), Some(128));
    assert_eq!(r.video_bitrate_kbps, 2500);
    assert_eq!(r.audio_bitrate_kbps, 128);
    assert_eq!(r.audio, AudioCodec::Opus);
    assert_eq!(r.video, VideoCodec::Av1);
}

#[test]
fn chosen_bitrates_win_over_measured_ones() {
    let r = EncodeRecipe { audio: AudioCodec::Aac, video: VideoCodec::H264, video_bitrate_kbps: 4000, audio_bitrate_kbps: 0 };
    let out = r.with_input_bitrates(Some(2500), None);
    assert_eq!(out.video_bitrate_kbps, 4000);
    assert_eq!(out.audio_bitrate_kbps, 0);
    assert_eq!(out.with_input_bitrates(Some(2500), None), out);
}
