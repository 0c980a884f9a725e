[package]
name = "canticlec_churn"
version = "0.1.0"
edition = "2021"
publish = false

[dependencies]
winit = "0.28"
winit_input_helper = "0.14"
pixels = "0.13"
symphonia = { version = "0.5", features = ["mp3"] }
rand = "0.8"
thiserror = "1"
tokio = { version = "1", features = ["macros", "rt-multi-thread"] }
log = "0.4"
env_logger = "0.10"
