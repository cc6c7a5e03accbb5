[package]
name = "ner_pipeline"
version = "0.1.0"
edition = "2021"
publish = false

[dependencies]
failure = "=0.1.8"
rust_tokenizers = "=2.0.5"
tch = "=0.26.0"
