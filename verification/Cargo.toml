[package]
name = "shorturl"
version = "0.1.0"
edition = "2021"
publish = false

[dependencies]
base62num = "=0.1.1"
http = "=1.5.0"
prost = "=0.14.4"
serde = "=1.0.229"
serde_derive = "=1.0.229"
tokio = { version = "=1.54.1", features = ["macros", "rt-multi-thread", "sync"] }
tonic = "=0.14.6"
tonic-prost = "0.14"
warp = { version = "=0.4.3", features = ["server"] }
