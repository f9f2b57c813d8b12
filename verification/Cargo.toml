[package]
name = "whisper_write"
version = "0.1.0"
edition = "2021"
publish = false

[dependencies]
anyhow = "1"
arboard = { version = "3", default-features = false }
clap = { version = "4", features = ["derive"] }
crossbeam-channel = "0.5"
daemonize = "0.5"
dotenvy = "0.15"
enigo = "0.1"
hound = "3"
libc = "0.2"
reqwest = { version = "0.12", default-features = false, features = ["blocking", "multipart", "json", "rustls-tls"] }
serde = { version = "1", features = ["derive"] }
