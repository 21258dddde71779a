//! Application settings.
use vstd::prelude::*;

use crate::codec::{AudioCodec, EncodeRecipe, VideoCodec};

verus! {

/// Settings of the application; a bitrate of 0 means "take the input's".
#[derive(Debug, Clone)]
pub struct AppSettings {
    pub recipe: EncodeRecipe,
    pub output_dir: String,
    pub overwrite: bool,
    pub auto_encode_on_drop: bool,
    pub video_bitrate_kbps: u32,
    pub audio_bitrate_kbps: u32,
}

impl Default for AppSettings {
    /// Default recipe, output directory ".", no overwriting, encoding on
    /// drop, and both bitrates taken from the input.
    fn default() -> (r: Self)
        ensures
            r.recipe.audio == AudioCodec::Opus,
            r.recipe.video == VideoCodec::Av1,
            r.recipe.video_bitrate_kbps == 0,
            r.recipe.audio_bitrate_kbps == 0,
            r.output_dir@ == "."@,
            !r.overwrite,
            r.auto_encode_on_drop,
            r.video_bitrate_kbps == 0,
            r.audio_bitrate_kbps == 0,
    {
        AppSettings {
            recipe: EncodeRecipe::default(),
            output_dir: String::from_str("."),
            overwrite: false,
            auto_encode_on_drop: true,
            video_bitrate_kbps: 0,
            audio_bitrate_kbps: 0,
        }
    }
}

} // verus!
