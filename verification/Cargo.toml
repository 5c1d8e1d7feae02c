[package]
name = "disassembler"
version = "0.1.0"
edition = "2021"
publish = false

[dependencies]
rs6502 = "*"
iced-x86 = "*"
axum = "*"
tokio = { version = "*", features = ["rt-multi-thread", "net", "macros"] }
serde = { version = "*", features = ["derive"] }
serde_with = { version = "*", features = ["json"] }
