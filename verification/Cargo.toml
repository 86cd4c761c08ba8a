[package]
name = "lite_xl"
version = "0.1.0"
edition = "2021"
publish = false

[dependencies]
ropey = "=1.6.1"
encoding_rs = "0.8"
serde = { version = "1", features = ["derive"] }
toml = "0.8"
tokio = { version = "1", features = ["fs", "io-util", "rt-multi-thread", "sync", "macros", "time"] }
dirs = "5"
syntect = { version = "5", default-features = false, features = ["default-fancy"] }
notify = "6"
notify-debouncer-full = "0.3"
once_cell = "1"
