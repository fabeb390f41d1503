[package]
name = "pipeline_shell"
version = "0.1.0"
edition = "2021"
publish = false

[dependencies]
rustyline = "6.3.0"
env_logger = "0.7.1"
