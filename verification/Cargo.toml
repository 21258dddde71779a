[package]
name = "mp4dropxpd"
version = "0.1.0"
edition = "2021"
publish = false

[dependencies]
shiguredo_mp4 = "*"
shiguredo_opus = "*"
shiguredo_svt_av1 = "*"
shiguredo_dav1d = "*"
shiguredo_video_toolbox = "*"
shiguredo_audio_toolbox = "*"
tokio = { version = "1", features = ["rt-multi-thread", "sync", "macros"] }
tracing = "0.1"
tracing-subscriber = { version = "0.3", features = ["env-filter", "fmt"] }
