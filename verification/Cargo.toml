[package]
name = "wsa_lib"
version = "0.1.0"
edition = "2021"
publish = false

[dependencies]
chrono = "0.4"
clap = { version = "4", features = ["derive"] }
env_logger = "*"
exitcode = "1"
itertools = "*"
odbc-api = "*"
regex = "1"
serde_json = "1"
serde_yaml = "*"
simple-error = "*"
walkdir = "2"
