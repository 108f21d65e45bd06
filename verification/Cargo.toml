[package]
name = "s3etag"
version = "1.1.0"
edition = "2021"
publish = false

[dependencies]
clap = "2"
md5 = "0.7"
rayon = "1"
