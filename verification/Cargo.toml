[package]
name = "deployment_manager"
version = "0.1.0"
edition = "2021"
publish = false

[dependencies]
itertools = "0.13"
ratatui = "0.29"
sysinfo = "0.32"
