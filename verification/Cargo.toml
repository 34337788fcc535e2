[package]
name = "hollowreach"
version = "0.1.0"
edition = "2021"
publish = false

[dependencies]
bevy = { version = "=0.18.1", default-features = false, features = ["std", "multi_threaded", "keyboard", "mouse", "bevy_state", "bevy_log", "bevy_window"] }
encoding_rs = "=0.8.44"
llama-cpp-2 = "=0.1.160"
serde = { version = "=1.0.229", features = ["derive"] }
serde_json = "=1.0.154"
