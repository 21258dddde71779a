//! State of the drop window, the settings, and the texts and steps of the
//! options window.

use mp4dropxpd::codec::{AudioCodec, EncodeRecipe, VideoCodec};
use mp4dropxpd::settings::AppSettings;
use mp4dropxpd::state::{AppCommand, CommandEffect, DropState};
use mp4dropxpd::text::decimal_string;
use mp4dropxpd::ui::{
    bitrate_label, step_bitrate_down, step_bitrate_up, AUDIO_BITRATE_MAX, AUDIO_BITRATE_MIN, AUDIO_BITRATE_STEP,
    VIDEO_BITRATE_MAX, VIDEO_BITRATE_MIN, VIDEO_BITRATE_STEP,
};

fn s(x: &str) -> String {
    x.to_string()
}

#[test]
fn settings_default_to_automatic_bitrates_and_encode_on_drop() {
    let st = AppSettings::default();
    assert_eq!(st.output_dir, ".");
    assert!(!st.overwrite);
    assert!(st.auto_encode_on_drop);
    assert_eq!(st.video_bitrate_kbps, 0);
    assert_eq!(st.audio_bitrate_kbps, 0);
    assert_eq!(st.recipe, EncodeRecipe::default());
}

#[test]
fn new_window_is_idle_and_empty() {
    let d = DropState::new();
    assert!(d.dropped_paths.is_empty());
    assert!(!d.encoding);
    assert_eq!(d.recipe, EncodeRecipe::default());
    assert!(d.settings.auto_encode_on_drop);
}

#[test]
fn dropping_queues_mp4_files_once_and_starts_encoding() {
    let mut d = DropState::new();
    let start = d.on_drop(&[s("a.mp4"), s("notes.txt"), s("b.MP4"), s("a.mp4")]);
    assert!(start);
    assert_eq!(d.dropped_paths, vec![s("a.mp4"), s("b.MP4")]);
    d.add_paths(&[s("b.MP4"), s("c.mp4")]);
    assert_eq!(d.dropped_paths, vec![s("a.mp4"), s("b.MP4"), s("c.mp4")]);
}

#[test]
fn dropping_nothing_usable_starts_nothing() {
    let mut d = DropState::new();
    assert!(!d.on_drop(&[s("x.mov")]));
    assert!(d.dropped_paths.is_empty());
    d.settings.auto_encode_on_drop = false;
    assert!(!d.on_drop(&[s("y.mp4")]));
    assert_eq!(d.dropped_paths, vec![s("y.mp4")]);
}

#[test]
fn drops_are_ignored_while_encoding() {
    let mut d = DropState::new();
    d.encoding = true;
    assert!(!d.on_drop(&[s("a.mp4")]));
    assert!(d.dropped_paths.is_empty());
}

#[test]
fn commands_update_state_or_ask_the_window() {
    let mut d = DropState::new();
    d.add_paths(&[s("a.mp4")]);
    let r = EncodeRecipe { audio: AudioCodec::Aac, video: VideoCodec::H264, video_bitrate_kbps: 0, audio_bitrate_kbps: 0 };
    assert_eq!(d.apply_command(AppCommand::UpdateRecipe(r)), CommandEffect::Continue);
    assert_eq!(d.recipe, r);
    let mut st = AppSettings::default();
    st.overwrite = true;
    assert_eq!(d.apply_command(AppCommand::UpdateSettings(st)), CommandEffect::Continue);
    assert!(d.settings.overwrite);
    assert_eq!(d.apply_command(AppCommand::OpenOptions), CommandEffect::OpenOptions);
    assert_eq!(d.apply_command(AppCommand::TriggerEncode), CommandEffect::TriggerEncode);
    assert_eq!(d.apply_command(AppCommand::Exit), CommandEffect::Exit);
    assert_eq!(d.dropped_paths, vec![s("a.mp4")]);
    assert_eq!(d.apply_command(AppCommand::Clear), CommandEffect::Continue);
    assert!(d.dropped_paths.is_empty());
}

#[test]
fn encoding_the_queue_makes_one_job_per_file() {
    let mut d = DropState::new();
    assert!(d.start_encode().is_none());
    d.add_paths(&[s("dir/a.mp4"), s("b.mp4")]);
    d.settings.video_bitrate_kbps = 3000;
    d.settings.overwrite = true;
    let jobs = d.start_encode().expect("jobs");
    assert!(d.encoding);
    assert_eq!(jobs.len(), 2);
    assert_eq!(jobs[0].input, "dir/a.mp4");
    assert_eq!(jobs[0].output, "dir/a.AV1_opus.mp4");
    assert_eq!(jobs[1].output, "b.AV1_opus.mp4");
    assert_eq!(jobs[0].recipe.video_bitrate_kbps, 3000);
    assert_eq!(jobs[0].recipe.audio_bitrate_kbps, 0);
    assert!(jobs[1].overwrite);
    assert!(d.start_encode().is_none());
    d.finish_encode(false);
    assert!(!d.encoding);
    assert_eq!(d.dropped_paths.len(), 2);
    let _ = d.start_encode();
    d.finish_encode(true);
    assert!(d.dropped_paths.is_empty());
}

#[test]
fn bitrate_labels() {
    assert_eq!(bitrate_label(0), "Auto");
    assert_eq!(bitrate_label(128), "128 kbps");
    assert_eq!(bitrate_label(16000), "16000 kbps");
    assert_eq!(decimal_string(0), "0");
    assert_eq!(decimal_string(1234567890123), "1234567890123");
    assert_eq!(decimal_string(u64::MAX), "18446744073709551615");
}

#[test]
fn bitrate_steps_stay_within_limits() {
    assert_eq!(step_bitrate_down(0, VIDEO_BITRATE_STEP, VIDEO_BITRATE_MIN), 100);
    assert_eq!(step_bitrate_down(1000, VIDEO_BITRATE_STEP, VIDEO_BITRATE_MIN), 900);
    assert_eq!(step_bitrate_down(150, VIDEO_BITRATE_STEP, VIDEO_BITRATE_MIN), 100);
    assert_eq!(step_bitrate_down(20, AUDIO_BITRATE_STEP, AUDIO_BITRATE_MIN), 16);
    assert_eq!(step_bitrate_up(0, AUDIO_BITRATE_STEP, AUDIO_BITRATE_MIN, AUDIO_BITRATE_MAX), 16);
    assert_eq!(step_bitrate_up(128, AUDIO_BITRATE_STEP, AUDIO_BITRATE_MIN, AUDIO_BITRATE_MAX), 144);
    assert_eq!(step_bitrate_up(500, AUDIO_BITRATE_STEP, AUDIO_BITRATE_MIN, AUDIO_BITRATE_MAX), 512);
    assert_eq!(step_bitrate_up(49950, VIDEO_BITRATE_STEP, VIDEO_BITRATE_MIN, VIDEO_BITRATE_MAX), 50000);
}
