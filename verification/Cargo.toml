[package]
name = "goqui"
version = "0.1.0"
edition = "2021"
publish = false

[dependencies]
opus = "=0.4.0"
coqui-stt = "=1.0.2"
audrey = "=0.3.0"
dasp_signal = "=0.11.0"
dasp_interpolate = { version = "=0.11.0", features = ["linear"] }
