[package]
name = "s3_backup"
version = "0.1.0"
edition = "2021"
publish = false

[dependencies]
zip = { version = "0.6", default-features = false, features = ["deflate"] }
walkdir = "2"
tempfile = "3"
tokio = { version = "1", features = ["macros", "rt-multi-thread", "fs", "io-util"] }
clap = { version = "4", features = ["derive"] }
aws-config = "0.54"
aws-sdk-s3 = "0.24"
