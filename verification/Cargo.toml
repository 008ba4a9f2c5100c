[package]
name = "ascii_video_visualizer"
version = "1.1.0"
edition = "2021"
publish = false

[dependencies]
anyhow = "1"
clap = { version = "4", features = ["derive"] }
crossterm = "0.27"
ffmpeg-next = "*"
image = { version = "0.24", default-features = false }
imageproc = "0.23"
log = "0.4"
pretty_env_logger = "0.5"
rusttype = "0.9"
terminal_size = "0.3"
