[package]
name = "elfo_dumper"
version = "0.1.0"
edition = "2021"
publish = false

[dependencies]
serde = "=1.0.229"
serde_json = "=1.0.154"
fxhash = "=0.2.1"
tracing = "=0.1.44"
elfo-core = { version = "=0.1.35", features = ["unstable"] }
elfo-utils = "=0.2.1"
