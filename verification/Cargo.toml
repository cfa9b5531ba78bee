[package]
name = "bevy_console"
version = "0.1.0"
edition = "2021"
publish = false

[dependencies]
bevy = { version = "=0.18.1", default-features = false, features = ["bevy_log"] }
bevy_egui = { version = "=0.39.1", default-features = false }
bevy_platform = "=0.18.1"
clap = { version = "=4.6.7", features = ["derive"] }
shlex = "=1.3.0"
trie-rs = "=0.4.2"
