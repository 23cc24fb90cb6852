[package]
name = "manifest"
version = "0.1.0"
edition = "2021"
publish = false

[dependencies]
clap = { version = "=4.6.7", features = ["derive"] }
object = { version = "=0.40.0", features = ["write"] }
serde_json = { version = "=1.0.154", features = ["arbitrary_precision", "preserve_order"] }
symbolic-common = "=13.9.0"
symbolic-demangle = "=13.9.0"
thiserror = "=1.0.69"
tracing = "=0.1.44"
tracing-subscriber = { version = "=0.3.23", features = ["env-filter"] }
ureq = "=2.12.1"
