[package]
name = "riptide"
version = "0.1.0"
edition = "2021"
publish = false

[dependencies]
anyhow = "1"
argh = "0.1"
lexical = "7"
memmap2 = "0.9"
mimalloc = "0.1"
monoio = "0.2"
rand = "0.8"
rkyv = "0.8"
tracing = "0.1"
tracing-subscriber = "0.3"
