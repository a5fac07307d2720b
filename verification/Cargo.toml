[package]
name = "quiklang"
version = "0.1.0"
edition = "2021"
publish = false

[dependencies]
codespan-reporting = "0.11"
tokio = { version = "1", features = ["rt", "sync"] }
