[package]
name = "ksp_dashboard"
version = "0.1.0"
edition = "2021"
publish = false

[dependencies]
krpc-client = "*"
