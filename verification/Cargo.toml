[package]
name = "pptx"
version = "0.1.0"
edition = "2021"
publish = false

[dependencies]
quick-xml = "=0.38.4"
zip = { version = "2", default-features = false, features = ["deflate"] }
sha1 = "0.10"
