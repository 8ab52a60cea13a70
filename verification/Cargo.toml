[package]
name = "tag_suite"
version = "0.1.0"
edition = "2021"
publish = false

[dependencies]
regex = "1"
md5 = "*"
shell-escape = "*"
internship = "*"
serde = { version = "1", features = ["derive"] }
serde_json = "1"
serde_yaml = "0.8"
diesel = { version = "1.4", features = ["sqlite", "r2d2"] }
walkdir = "2"
xattr = "*"
clap = "2"
log = "0.4"
env_logger = "*"
failure = "0.1"
chrono = "0.4"
