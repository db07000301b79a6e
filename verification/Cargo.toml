[package]
name = "llm_rtc"
version = "0.1.0"
edition = "2021"
publish = false

[dependencies]
anyhow = "1"
opus = "0.3"
pyo3 = { version = "0.22", features = ["abi3-py38"] }
thiserror = "1"
tokio = { version = "1", features = ["macros", "rt-multi-thread", "sync", "time"] }
tracing = "0.1"
webrtc = "0.12"
webrtc-audio-processing = "0.*"
