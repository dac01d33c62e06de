[package]
name = "mactime2"
version = "0.1.0"
edition = "2021"
publish = false

[dependencies]
bodyfile = "=0.1.4"
chrono = "=0.4.45"
chrono-tz = "=0.8.6"
anyhow = "=1.0.104"
clap = { version = "=4.6.7", features = ["derive"] }
clap-verbosity-flag = "=2.2.3"
simplelog = "=0.12.2"
log = "=0.4.34"
encoding_rs = "=0.8.42"
encoding_rs_io = "=0.1.8"
flate2 = "=1.1.10"
serde_json = "=1.0.154"
es4forensics = "=0.5.1"
elasticsearch = "=8.4.0-alpha.1"
tokio = { version = "=1.54.1", features = ["rt-multi-thread"] }

[dev-dependencies]
rand = "=0.8.8"
