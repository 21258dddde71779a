//! Texts and value steps of the settings controls.
use vstd::prelude::*;

use crate::text::{decimal, decimal_string};

verus! {

/// Video bitrate presets in kbps.
pub const VIDEO_BITRATE_PRESETS: [u32; 6] = [500, 1000, 2000, 4000, 8000, 16000];
/// Step of the video bitrate stepper in kbps.
pub const VIDEO_BITRATE_STEP: u32 = 100;
/// Lowest video bitrate the stepper reaches in kbps.
pub const VIDEO_BITRATE_MIN: u32 = 100;
/// Highest video bitrate the stepper reaches in kbps.
pub const VIDEO_BITRATE_MAX: u32 = 50000;

/// Audio bitrate presets in kbps.
pub const AUDIO_BITRATE_PRESETS: [u32; 6] = [64, 96, 128, 192, 256, 320];
/// Step of the audio bitrate stepper in kbps.
pub const AUDIO_BITRATE_STEP: u32 = 16;
/// Lowest audio bitrate the stepper reaches in kbps.
pub const AUDIO_BITRATE_MIN: u32 = 16;
/// Highest audio bitrate the stepper reaches in kbps.
pub const AUDIO_BITRATE_MAX: u32 = 512;

/// Text shown for a bitrate: "Auto" (keep the input's bitrate) for 0,
/// otherwise "<kbps> kbps".
pub open spec fn bitrate_text(kbps: u32) -> Seq<char> {
    if kbps == 0 {
        "Auto"@
    } else {
        decimal(kbps as nat) + " kbps"@
    }
}

/// Text shown for a bitrate (see `bitrate_text`).
pub fn bitrate_label(kbps: u32) -> (s: String)
    ensures
        s@ == bitrate_text(kbps),
{
    if kbps == 0 {
        String::from_str("Auto")
    } else {
        let mut s = decimal_string(kbps as u64);
        s.append(" kbps");
        s
    }
}

/// The "-" button: from automatic (0) to the minimum, otherwise one step
/// down, never below the minimum.
pub fn step_bitrate_down(kbps: u32, step: u32, min: u32) -> (r: u32)
    ensures
        r == if kbps == 0 {
            min
        } else if kbps >= step && kbps - step >= min {
            (kbps - step) as u32
        } else {
            min
        },
        r >= min,
{
    if kbps == 0 {
        min
    } else {
        let lowered = kbps.saturating_sub(step);
        if lowered > min { lowered } else { min }
    }
}

/// The "+" button: from automatic (0) to the minimum, otherwise one step
/// up, never above the maximum.
pub fn step_bitrate_up(kbps: u32, step: u32, min: u32, max: u32) -> (r: u32)
    ensures
        r == if kbps == 0 {
            min
        } else if kbps + step <= max {
            (kbps + step) as u32
        } else {
            max
        },
        kbps != 0 ==> r <= max,
{
    if kbps == 0 {
        min
    } else {
        let raised = kbps.saturating_add(step);
        if raised < max { raised } else { max }
    }
}

} // verus!
