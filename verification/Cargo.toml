[package]
name = "epubee"
version = "0.1.0"
edition = "2021"
publish = false

[dependencies]
bytes = "0.5"
quick-xml = "0.18"
reqwest = { version = "0.10", default-features = false, features = ["blocking"] }
rusty-leveldb = "0.3"
zip = { version = "0.5", default-features = false, features = ["deflate"] }
