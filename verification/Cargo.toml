[package]
name = "vid_to_ascii"
version = "0.1.0"
edition = "2021"
publish = false

[dependencies]
video-rs = { version = "=0.12.0", features = ["ndarray"] }
