[package]
name = "termvid"
version = "0.1.0"
edition = "2021"
publish = false

[dependencies]
yansi = "0.5"
y4m = "0.8"
console = "0.15"
clap = { version = "4", features = ["derive"] }
ctrlc = "3"
rodio = { version = "0.17", default-features = false, features = ["wav"] }
unix-named-pipe = "0.2"
uuid = { version = "1", features = ["v4"] }
which = "4"
ffprobe = "0.3"
indicatif = "0.17"
regex = "1"
tokio = { version = "1", features = ["process", "io-util"] }
