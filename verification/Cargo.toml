[package]
name = "roam_shm"
version = "0.1.0"
edition = "2021"
publish = false

[dependencies]
facet = { version = "=0.46.5", features = ["reflect"] }
static_assertions = "=1.1.0"
tokio = { version = "=1.54.1", features = ["rt"] }
tracing = "=0.1.44"

[dev-dependencies]
facet-postcard = "=0.46.1"
