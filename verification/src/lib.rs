//! Verified core of a drag-and-drop MP4 to MP4 re-encoder: codec recipes,
//! input and output path rules, sample bookkeeping, MP4 sample-entry
//! construction and the ordering of samples for muxing.
use vstd::prelude::*;

pub mod codec;
pub mod path;
pub mod error;
pub mod mp4;
pub mod input;
pub mod output;
pub mod order;
pub mod sample_entry;
pub mod mux;
pub mod demux;
pub mod params;
pub mod video;
pub mod audio;
pub mod text;
pub mod encode;
pub mod transcode;
pub mod settings;
pub mod ui;
pub mod state;

verus! {

} // verus!
