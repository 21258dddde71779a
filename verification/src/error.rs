//! Errors of the encode pipeline.
use vstd::prelude::*;

use shiguredo_mp4::demux::DemuxError;
use shiguredo_mp4::Error as BoxCodecError;

use crate::mp4::{box_codec_error_text, demux_error_text};
use crate::text::{decimal, decimal_string};

verus! {

/// The kind of a failed file-system operation, as the operating system
/// reports it (the kinds of `std::io::ErrorKind` this program meets; any
/// other is `Other`).
#[derive(Debug, Clone, Copy, PartialEq, Eq, Structural)]
pub enum IoErrorKind {
    NotFound,
    PermissionDenied,
    AlreadyExists,
    Interrupted,
    InvalidInput,
    InvalidData,
    UnexpectedEof,
    WriteZero,
    StorageFull,
    Unsupported,
    OutOfMemory,
    Other,
}

/// Why an encode job failed.
#[derive(Debug)]
pub enum Error {
    /// A file-system operation failed; carries its kind and message.
    Io { kind: IoErrorKind, message: String },
    /// A failure described by a message of its own.
    Message(String),
    /// The input is not an `.mp4` file.
    UnsupportedFormat { path: String },
    /// A sample's data lies (partly) beyond the end of the input file.
    InvalidSampleRange { start: usize, end: usize, file_size: usize },
    /// The video encoder stopped producing frames before all were received.
    DrainTimeout { elapsed: String, expected: usize, received: usize },
    /// The input holds neither a video nor an audio track.
    NoTrack,
    /// Encoding one track ("video" or "audio") failed.
    TrackEncode { track: String, message: String },
    /// The MP4 demuxer rejected the input.
    Demux(DemuxError),
    /// VideoToolbox reported an error; carries its description.
    VideoToolbox(String),
    /// AudioToolbox reported an error; carries its description.
    AudioToolbox(String),
    /// The Opus codec reported an error; carries its description.
    Opus(String),
    /// The SVT-AV1 encoder reported an error; carries its description.
    SvtAv1(String),
    /// The MP4 library reported an error.
    Mp4(BoxCodecError),
}

/// `prefix` followed by anything.
pub open spec fn starts_with(s: Seq<char>, prefix: Seq<char>) -> bool {
    s.len() >= prefix.len() && s.subrange(0, prefix.len() as int) == prefix
}

fn prefixed(prefix: &str, text: &str) -> (s: String)
    ensures
        s@ == prefix@ + text@,
{
    let mut s = String::from_str(prefix);
    s.append(text);
    s
}

impl Error {
    /// Text of the error as shown to the user.
    pub fn to_string(&self) -> (s: String)
        ensures
            match self {
                Error::Io { kind: _, message } => s@ == "io error: "@ + message@,
                Error::Message(m) => s@ == m@,
                Error::UnsupportedFormat { path } => s@ == "unsupported input: "@ + path@,
                Error::InvalidSampleRange { start, end, file_size } => s@ == "sample data out of range: "@
                    + decimal(*start as nat) + ".."@ + decimal(*end as nat) + ", file size "@ + decimal(
                    *file_size as nat,
                ),
                Error::DrainTimeout { elapsed, expected, received } => s@ == "video encoder stalled: elapsed "@
                    + elapsed@ + ", expected "@ + decimal(*expected as nat) + " frames, received "@ + decimal(
                    *received as nat,
                ),
                Error::NoTrack => s@ == "no video/audio track in input"@,
                Error::TrackEncode { track, message } => s@ == track@ + " encode failed: "@ + message@,
                Error::Demux(_) => starts_with(s@, "mp4 demux error: "@),
                Error::VideoToolbox(m) => s@ == "video toolbox: "@ + m@,
                Error::AudioToolbox(m) => s@ == "audio toolbox: "@ + m@,
                Error::Opus(m) => s@ == "opus: "@ + m@,
                Error::SvtAv1(m) => s@ == "svt-av1: "@ + m@,
                Error::Mp4(_) => starts_with(s@, "mp4: "@),
            },
    {
        match self {
            Error::Io { kind: _, message } => prefixed("io error: ", message.as_str()),
            Error::Message(m) => String::from_str(m.as_str()),
            Error::UnsupportedFormat { path } => prefixed("unsupported input: ", path.as_str()),
            Error::InvalidSampleRange { start, end, file_size } => {
                let mut s = String::from_str("sample data out of range: ");
                let t = decimal_string(*start as u64);
                s.append(t.as_str());
                s.append("..");
                let t = decimal_string(*end as u64);
                s.append(t.as_str());
                s.append(", file size ");
                let t = decimal_string(*file_size as u64);
                s.append(t.as_str());
                s
            },
            Error::DrainTimeout { elapsed, expected, received } => {
                let mut s = String::from_str("video encoder stalled: elapsed ");
                s.append(elapsed.as_str());
                s.append(", expected ");
                let t = decimal_string(*expected as u64);
                s.append(t.as_str());
                s.append(" frames, received ");
                let t = decimal_string(*received as u64);
                s.append(t.as_str());
                s
            },
            Error::NoTrack => String::from_str("no video/audio track in input"),
            Error::TrackEncode { track, message } => {
                let mut s = String::from_str(track.as_str());
                s.append(" encode failed: ");
                s.append(message.as_str());
                s
            },
            Error::Demux(e) => {
                let t = demux_error_text(e);
                let s = prefixed("mp4 demux error: ", t.as_str());
                assert(s@.subrange(0, "mp4 demux error: "@.len() as int) =~= "mp4 demux error: "@);
                s
            },
            Error::VideoToolbox(m) => prefixed("video toolbox: ", m.as_str()),
            Error::AudioToolbox(m) => prefixed("audio toolbox: ", m.as_str()),
            Error::Opus(m) => prefixed("opus: ", m.as_str()),
            Error::SvtAv1(m) => prefixed("svt-av1: ", m.as_str()),
            Error::Mp4(e) => {
                let t = box_codec_error_text(e);
                let s = prefixed("mp4: ", t.as_str());
                assert(s@.subrange(0, "mp4: "@.len() as int) =~= "mp4: "@);
                s
            },
        }
    }
}

} // verus!
