[package]
name = "path_tagger"
version = "0.1.0"
edition = "2021"
publish = false

[dependencies]
clap = { version = "4", features = ["derive"] }
ctreg = "*"
id3 = "1"
nu-ansi-term = "*"
walkdir = "2"
