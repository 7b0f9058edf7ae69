[package]
name = "gcs_client"
version = "0.1.0"
edition = "2021"
publish = false

[dependencies]
base64 = "*"
http = "*"
percent-encoding = "*"
