[package]
name = "bg3_unpacker"
version = "0.1.0"
edition = "2021"
publish = false

[dependencies]
byteorder = "1"
lz4_flex = "0.11"
clap = { version = "4", features = ["derive"] }
env_logger = "0.11"
log = "0.4"
