[package]
name = "cue_album"
version = "0.1.0"
edition = "2021"
publish = false

[dependencies]
encoding_rs = "=0.8.42"
rfd = { version = "=0.17.2", default-features = false, features = ["xdg-portal"] }
