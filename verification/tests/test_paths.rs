//! Paths: components, MP4 detection, output and temporary file names.

use mp4dropxpd::codec::{AudioCodec, EncodeRecipe, VideoCodec};
use mp4dropxpd::error::Error;
use mp4dropxpd::input::{ensure_mp4_input, ensure_mp4_output, filter_mp4_paths, is_mp4_file};
use mp4dropxpd::output::default_output_path;
use mp4dropxpd::path::{extension, file_name, file_stem, join, parent};
use mp4dropxpd::transcode::temp_output_path;

fn s(x: &str) -> String {
    x.to_string()
}

#[test]
fn file_name_is_the_last_normal_component() {
    assert_eq!(file_name("dir/sample.mp4"), Some(s("sample.mp4")));
    assert_eq!(file_name("/a/b/"), Some(s("b")));
    assert_eq!(file_name("a/b/."), Some(s("b")));
    assert_eq!(file_name("a/.."), None);
    assert_eq!(file_name("/"), None);
    assert_eq!(file_name(""), None);
}

#[test]
fn parent_drops_the_last_component() {
    assert_eq!(parent("dir/sample.mp4"), Some(s("dir")));
    assert_eq!(parent("sample.mp4"), Some(s("")));
    assert_eq!(parent("/sample.mp4"), Some(s("/")));
    assert_eq!(parent("/a/b//"), Some(s("/a")));
    assert_eq!(parent("/"), None);
    assert_eq!(parent(""), None);
}

#[test]
fn extension_and_stem_split_at_the_last_dot() {
    assert_eq!(extension("movie.tar.mp4"), Some(s("mp4")));
    assert_eq!(file_stem("movie.tar.mp4"), Some(s("movie.tar")));
    assert_eq!(extension(".hidden"), None);
    assert_eq!(file_stem(".hidden"), Some(s(".hidden")));
    assert_eq!(extension("noext"), None);
    assert_eq!(extension("trailing."), Some(s("")));
    assert_eq!(file_stem("trailing."), Some(s("trailing")));
}

#[test]
fn join_puts_one_separator_between() {
    assert_eq!(join("dir", "a.mp4"), "dir/a.mp4");
    assert_eq!(join("dir/", "a.mp4"), "dir/a.mp4");
    assert_eq!(join("", "a.mp4"), "a.mp4");
}

#[test]
fn mp4_detection_ignores_letter_case() {
    assert!(is_mp4_file("a/b.mp4"));
    assert!(is_mp4_file("B.MP4"));
    assert!(is_mp4_file("c.Mp4"));
    assert!(!is_mp4_file("d.mov"));
    assert!(!is_mp4_file("mp4"));
    assert!(!is_mp4_file(".mp4"));
    assert!(!is_mp4_file("e.mp4.txt"));
}

#[test]
fn filter_keeps_mp4_files_in_order() {
    let paths = vec![s("a.mp4"), s("b.txt"), s("c.MP4"), s("d"), s("a.mp4")];
    assert_eq!(filter_mp4_paths(&paths), vec![s("a.mp4"), s("c.MP4"), s("a.mp4")]);
    assert!(filter_mp4_paths(&[]).is_empty());
}

#[test]
fn input_must_be_mp4() {
    assert!(ensure_mp4_input("x/y.mp4").is_ok());
    match ensure_mp4_input("x/y.avi") {
        Err(Error::UnsupportedFormat { path }) => assert_eq!(path, "x/y.avi"),
        other => panic!("unexpected: {other:?}"),
    }
}

#[test]
fn output_must_be_mp4() {
    assert!(ensure_mp4_output("out.MP4").is_ok());
    match ensure_mp4_output("out.mkv") {
        Err(Error::Message(m)) => assert_eq!(m, "output must be .mp4: out.mkv"),
        other => panic!("unexpected: {other:?}"),
    }
}

#[test]
fn default_output_sits_beside_the_input() {
    let r = EncodeRecipe::default();
    assert_eq!(default_output_path("sample.mp4", r), "sample.AV1_opus.mp4");
    assert_eq!(default_output_path("dir/sample.mp4", r), "dir/sample.AV1_opus.mp4");
    assert_eq!(default_output_path("/m/clip.v2.mp4", r), "/m/clip.v2.AV1_opus.mp4");
    let r2 = EncodeRecipe { audio: AudioCodec::Aac, video: VideoCodec::H265, video_bitrate_kbps: 0, audio_bitrate_kbps: 0 };
    assert_eq!(default_output_path("dir/sample.mp4", r2), "dir/sample.H265_aac.mp4");
    assert!(is_mp4_file(&default_output_path("x/y.mp4", r2)));
}

#[test]
fn output_never_replaces_the_input() {
    let r = EncodeRecipe::default();
    assert_eq!(default_output_path("a.AV1_opus.mp4", r), "a.AV1_opus.AV1_opus.mp4");
    for input in ["a.mp4", "a.AV1_opus.mp4", "noext", "/", "", "d/.mp4"] {
        assert_ne!(default_output_path(input, r), input);
    }
}

#[test]
fn temp_file_is_hidden_beside_the_output() {
    assert_eq!(temp_output_path("/out/a.mp4", 42, 7).unwrap(), "/out/.a.mp4.42.7.tmp");
    assert_eq!(temp_output_path("a.mp4", 1, 0).unwrap(), ".a.mp4.1.0.tmp");
    let t = temp_output_path("d/e/f.mp4", 123, 45).unwrap();
    assert_eq!(parent(&t), Some(s("d/e")));
    assert_eq!(file_name(&t), Some(s(".f.mp4.123.45.tmp")));
    assert!(matches!(temp_output_path("/", 1, 1), Err(Error::Message(_))));
    assert!(matches!(temp_output_path("", 1, 1), Err(Error::Message(_))));
}

#[test]
fn temp_paths_of_different_counters_differ() {
    let a = temp_output_path("/out/a.mp4", 42, 1).unwrap();
    let b = temp_output_path("/out/a.mp4", 42, 11).unwrap();
    let c = temp_output_path("/out/a.mp4", 42, 2).unwrap();
    assert_ne!(a, b);
    assert_ne!(a, c);
    assert_ne!(b, c);
}
