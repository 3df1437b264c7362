[package]
name = "rag_pipeline"
version = "0.1.0"
edition = "2021"
publish = false

[dependencies]
serde_json = "*"
anyhow = "*"
reqwest = { version = "*", default-features = false, features = ["blocking", "json"] }
tokio = { version = "*", features = ["rt", "rt-multi-thread", "macros"] }
gemini-rs = "*"
pdf-extract = "*"
