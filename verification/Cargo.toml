[package]
name = "osxrdp"
version = "0.1.0"
edition = "2021"
publish = false

[dependencies]
anyhow = "1"
async-trait = "0.1"
byteorder = "=1.5.0"
bytes = "=1.12.1"
core-graphics = { version = "=0.25.0", default-features = false, features = ["highsierra"] }
ironrdp-cliprdr = "0.5"
ironrdp-core = "0.1"
ironrdp-displaycontrol = "0.5"
ironrdp-dvc = "0.5"
ironrdp-graphics = "0.7"
ironrdp-pdu = "0.7"
libc = "0.2"
rcgen = { version = "0.13", default-features = false, features = ["ring", "crypto"] }
rustls = { version = "0.23", default-features = false, features = ["ring", "std", "tls12"] }
screencapturekit = { version = "2", features = ["async"] }
tokio = { version = "1", features = ["rt-multi-thread", "macros", "net", "sync", "time", "io-util"] }
tokio-rustls = { version = "0.26", default-features = false, features = ["ring", "tls12"] }
tracing = "0.1"
tracing-subscriber = { version = "0.3", features = ["env-filter"] }
