[package]
name = "samply_process"
version = "0.1.0"
edition = "2021"
publish = false

[dependencies]
framehop = "=0.16.0"
fxprof-processed-profile = "=0.8.1"

[dev-dependencies]
serde_json = "=1.0.154"
