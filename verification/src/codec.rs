//! Audio and video codec choices and the encode recipe that combines them.
use vstd::prelude::*;

verus! {

/// Audio codec of the output file.
#[derive(Debug, Clone, Copy, PartialEq, Eq, Structural)]
pub enum AudioCodec {
    Aac,
    Opus,
}

/// Video codec of the output file.
#[derive(Debug, Clone, Copy, PartialEq, Eq, Structural)]
pub enum VideoCodec {
    H264,
    H265,
    Av1,
}

/// The label shown to the user for an audio codec.
pub open spec fn audio_label(c: AudioCodec) -> Seq<char> {
    match c {
        AudioCodec::Aac => "AAC"@,
        AudioCodec::Opus => "Opus"@,
    }
}

/// The label shown to the user for a video codec.
pub open spec fn video_label(c: VideoCodec) -> Seq<char> {
    match c {
        VideoCodec::H264 => "H.264"@,
        VideoCodec::H265 => "H.265"@,
        VideoCodec::Av1 => "AV1"@,
    }
}

impl AudioCodec {
    pub const ALL: [AudioCodec; 2] = [AudioCodec::Aac, AudioCodec::Opus];

    /// Technical name of the codec ("AAC" or "Opus").
    pub fn label(self) -> (r: &'static str)
        ensures
            r@ == audio_label(self),
    {
        match self {
            AudioCodec::Aac => "AAC",
            AudioCodec::Opus => "Opus",
        }
    }
}

impl VideoCodec {
    pub const ALL: [VideoCodec; 3] = [VideoCodec::H264, VideoCodec::H265, VideoCodec::Av1];

    /// Technical name of the codec ("H.264", "H.265" or "AV1").
    pub fn label(self) -> (r: &'static str)
        ensures
            r@ == video_label(self),
    {
        match self {
            VideoCodec::H264 => "H.264",
            VideoCodec::H265 => "H.265",
            VideoCodec::Av1 => "AV1",
        }
    }
}

impl Default for AudioCodec {
    fn default() -> (r: Self)
        ensures
            r == AudioCodec::Opus,
    {
        AudioCodec::Opus
    }
}

impl Default for VideoCodec {
    fn default() -> (r: Self)
        ensures
            r == VideoCodec::Av1,
    {
        VideoCodec::Av1
    }
}

} // verus!

verus! {

/// The name a video codec contributes to output file names.
pub open spec fn video_tag(c: VideoCodec) -> Seq<char> {
    match c {
        VideoCodec::H264 => "H264"@,
        VideoCodec::H265 => "H265"@,
        VideoCodec::Av1 => "AV1"@,
    }
}

/// The name an audio codec contributes to output file names.
pub open spec fn audio_tag(c: AudioCodec) -> Seq<char> {
    match c {
        AudioCodec::Aac => "aac"@,
        AudioCodec::Opus => "opus"@,
    }
}

/// Codec pair and target bitrates of one encode; a bitrate of 0 means
/// "not chosen", so the bitrate measured on the input is used instead.
#[derive(Debug, Clone, Copy, PartialEq, Eq, Structural)]
pub struct EncodeRecipe {
    pub audio: AudioCodec,
    pub video: VideoCodec,
    pub video_bitrate_kbps: u32,
    pub audio_bitrate_kbps: u32,
}

/// Text of `EncodeRecipe::summary`: "<audio label> + <video label>".
pub open spec fn summary_text(r: EncodeRecipe) -> Seq<char> {
    audio_label(r.audio) + " + "@ + video_label(r.video)
}

/// Text of `EncodeRecipe::codec_tag`: "<video tag>_<audio tag>".
pub open spec fn codec_tag_text(r: EncodeRecipe) -> Seq<char> {
    video_tag(r.video) + "_"@ + audio_tag(r.audio)
}

/// A chosen bitrate wins over the measured one; an unchosen one (0) takes
/// the measured bitrate when there is one.
pub open spec fn resolved_bitrate(chosen: u32, measured: Option<u32>) -> u32 {
    if chosen == 0 {
        match measured {
            Some(m) => m,
            None => chosen,
        }
    } else {
        chosen
    }
}

/// The recipe with both bitrates resolved against measured input bitrates.
pub open spec fn spec_with_input_bitrates(
    r: EncodeRecipe,
    video_input_kbps: Option<u32>,
    audio_input_kbps: Option<u32>,
) -> EncodeRecipe {
    EncodeRecipe {
        video_bitrate_kbps: resolved_bitrate(r.video_bitrate_kbps, video_input_kbps),
        audio_bitrate_kbps: resolved_bitrate(r.audio_bitrate_kbps, audio_input_kbps),
        ..r
    }
}

impl Default for EncodeRecipe {
    fn default() -> (r: Self)
        ensures
            r.audio == AudioCodec::Opus,
            r.video == VideoCodec::Av1,
            r.video_bitrate_kbps == 0,
            r.audio_bitrate_kbps == 0,
    {
        EncodeRecipe {
            audio: AudioCodec::Opus,
            video: VideoCodec::Av1,
            video_bitrate_kbps: 0,
            audio_bitrate_kbps: 0,
        }
    }
}

impl EncodeRecipe {
    /// "<audio> + <video>", e.g. "Opus + AV1".
    pub fn summary(self) -> (s: String)
        ensures
            s@ == summary_text(self),
    {
        let mut s = String::from_str(self.audio.label());
        s.append(" + ");
        s.append(self.video.label());
        s
    }

    /// "<video>_<audio>" as used in output file names, e.g. "AV1_opus".
    pub fn codec_tag(self) -> (s: String)
        ensures
            s@ == codec_tag_text(self),
    {
        let v: &str = match self.video {
            VideoCodec::H264 => "H264",
            VideoCodec::H265 => "H265",
            VideoCodec::Av1 => "AV1",
        };
        let a: &str = match self.audio {
            AudioCodec::Aac => "aac",
            AudioCodec::Opus => "opus",
        };
        let mut s = String::from_str(v);
        s.append("_");
        s.append(a);
        s
    }

    /// Replaces each bitrate left at 0 (not chosen) with the bitrate
    /// measured on the input, when one was measured; chosen bitrates stay.
    pub fn with_input_bitrates(
        self,
        video_input_kbps: Option<u32>,
        audio_input_kbps: Option<u32>,
    ) -> (r: Self)
        ensures
            r == spec_with_input_bitrates(self, video_input_kbps, audio_input_kbps),
    {
        EncodeRecipe {
            video_bitrate_kbps: if self.video_bitrate_kbps == 0 {
                match video_input_kbps {
                    Some(v) => v,
                    None => self.video_bitrate_kbps,
                }
            } else {
                self.video_bitrate_kbps
            },
            audio_bitrate_kbps: if self.audio_bitrate_kbps == 0 {
                match audio_input_kbps {
                    Some(a) => a,
                    None => self.audio_bitrate_kbps,
                }
            } else {
                self.audio_bitrate_kbps
            },
            ..self
        }
    }
}

/// Resolving bitrates keeps the codecs, never overrides a bitrate the user
/// chose (non-zero), and resolving a second time with the same measurements
/// changes nothing.
pub proof fn lemma_with_input_bitrates_laws(
    r: EncodeRecipe,
    video_input_kbps: Option<u32>,
    audio_input_kbps: Option<u32>,
)
    ensures
        ({
            let once = spec_with_input_bitrates(r, video_input_kbps, audio_input_kbps);
            &&& once.audio == r.audio
            &&& once.video == r.video
            &&& r.video_bitrate_kbps != 0 ==> once.video_bitrate_kbps == r.video_bitrate_kbps
            &&& r.audio_bitrate_kbps != 0 ==> once.audio_bitrate_kbps == r.audio_bitrate_kbps
            &&& spec_with_input_bitrates(once, video_input_kbps, audio_input_kbps) == once
        }),
{
}

/// The codec tag names both codecs of the recipe, each independently of
/// the other: it starts with the video codec's name and an underscore and
/// ends with an underscore and the audio codec's name.
pub proof fn lemma_codec_tag_names_both_codecs(r: EncodeRecipe)
    ensures
        ({
            let t = codec_tag_text(r);
            &&& (r.audio == AudioCodec::Opus) <==> (t.len() >= 5 && t.subrange(t.len() - 5, t.len() as int) == "_opus"@)
            &&& (r.audio == AudioCodec::Aac) <==> (t.len() >= 4 && t.subrange(t.len() - 4, t.len() as int) == "_aac"@)
            &&& (r.video == VideoCodec::H264) <==> (t.len() >= 5 && t.subrange(0, 5) == "H264_"@)
            &&& (r.video == VideoCodec::H265) <==> (t.len() >= 5 && t.subrange(0, 5) == "H265_"@)
            &&& (r.video == VideoCodec::Av1) <==> (t.len() >= 4 && t.subrange(0, 4) == "AV1_"@)
        }),
{
    reveal_strlit("H264");
    reveal_strlit("H265");
    reveal_strlit("AV1");
    reveal_strlit("aac");
    reveal_strlit("opus");
    reveal_strlit("_");
    reveal_strlit("_opus");
    reveal_strlit("_aac");
    reveal_strlit("H264_");
    reveal_strlit("H265_");
    reveal_strlit("AV1_");
    let t = codec_tag_text(r);
    let v = video_tag(r.video);
    let a = audio_tag(r.audio);
    assert(t == v + "_"@ + a);
    match r.audio {
        AudioCodec::Opus => assert(a =~= seq!['o', 'p', 'u', 's']),
        AudioCodec::Aac => assert(a =~= seq!['a', 'a', 'c']),
    }
    match r.video {
        VideoCodec::H264 => assert(v =~= seq!['H', '2', '6', '4']),
        VideoCodec::H265 => assert(v =~= seq!['H', '2', '6', '5']),
        VideoCodec::Av1 => assert(v =~= seq!['A', 'V', '1']),
    }
    let n = t.len() as int;
    assert(n >= 7);
    if r.audio == AudioCodec::Opus {
        assert(t.subrange(n - 5, n) =~= "_opus"@);
        assert(t.subrange(n - 4, n)[0] == 'o');
    } else {
        assert(t.subrange(n - 4, n) =~= "_aac"@);
        assert(t.subrange(n - 5, n)[1] == '_');
    }
    match r.video {
        VideoCodec::H264 => {
            assert(t.subrange(0, 5) =~= "H264_"@);
            assert(t.subrange(0, 4)[3] == '4');
        },
        VideoCodec::H265 => {
            assert(t.subrange(0, 5) =~= "H265_"@);
            assert(t.subrange(0, 4)[3] == '5');
            assert(t.subrange(0, 5)[3] == '5');
        },
        VideoCodec::Av1 => {
            assert(t.subrange(0, 4) =~= "AV1_"@);
            assert(t.subrange(0, 5)[3] == '_');
        },
    }
}

} // verus!
