[package]
name = "gif_relay"
version = "0.1.0"
edition = "2021"
publish = false

[dependencies]
eyre = "0.6"
gif = "0.10"
hls_m3u8 = "*"
hyper = { version = "0.14", features = ["server", "http1", "tcp", "stream"] }
paw = "1.0"
reqwest = { version = "0.11", features = ["json"] }
serde = { version = "1", features = ["derive"] }
spandoc = "*"
structopt = { version = "0.3", features = ["paw"] }
tokio = { version = "1", features = ["rt-multi-thread", "process", "io-util", "macros"] }
tracing = "0.1"
tracing-error = "0.2"
tracing-subscriber = { version = "0.3", features = ["env-filter"] }
url = "2"
