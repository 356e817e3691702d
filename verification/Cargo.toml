[package]
name = "which_allowed"
version = "0.1.0"
edition = "2021"
publish = false

[dependencies]
aws-config = "1"
aws-sdk-iam = "1"
clap = { version = "4", features = ["derive"] }
colored = "2"
futures = "0.3"
inquire = "0.7"
regex = "1"
serde_json = "1"
tokio = { version = "1", features = ["macros", "rt-multi-thread"] }
urlencoding = "2"
