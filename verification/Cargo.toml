[package]
name = "cmake_file_api"
version = "0.1.0"
edition = "2021"
publish = false

[dependencies]
serde_json = "1"
shlex = "1"
thiserror = "1"
