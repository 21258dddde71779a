# mp4dropxpd

A drag-and-drop MP4 to MP4 re-encoder for macOS: MP4 files dropped on the
window are re-encoded (H.264 / H.265 / AV1 video, AAC / Opus audio) and
written beside the input as `<stem>.<video>_<audio>.mp4`, for example
`sample.mp4` → `sample.AV1_opus.mp4`.

## Layout

- `src/` — the library, verified with Verus: paths and output names, the
  drop window's queue and commands, bitrate resolution, what is copied out
  of the input and checked (`demux`, `params`), the sample entries of the
  output (`sample_entry`), the decisions around the video and audio codecs
  (`video`, `audio`), and the layout of the output file in presentation-time
  order (`order`, `mux`). The MP4 library's demuxer and muxer are called
  through the trusted items of `mp4`: what the demuxer reports for a file,
  and the sample entries it reads, are named there rather than proved, and
  the muxer is described by a model of the checks it makes, of the
  samples and sample entries it accepted, and of its initial boxes; what
  its `finalize` gives for the accepted samples is named.
- `tests/` — tests of the library, run against the real MP4 library.
- `app/` — the program around the library: the GPUI windows, the Tokio
  runtime, file I/O with a temporary file per output, and the calls into
  VideoToolbox, AudioToolbox, dav1d, SVT-AV1 and libopus.
