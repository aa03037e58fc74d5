[package]
name = "moose"
version = "0.1.0"
edition = "2021"
publish = false

[dependencies]
url = "2"
uuid = { version = "1", features = ["v7"] }
time = { version = "0.3", features = ["formatting"] }
sha2 = "0.10"
serde = { version = "1", features = ["derive"] }
serde_json = "1"
rusqlite = "*"
reqwest = { version = "0.12", features = ["json", "stream"] }
tokio = { version = "1", features = ["rt-multi-thread", "macros", "fs", "io-util", "time", "sync"] }
futures-util = "0.3"
tar = "0.4"
zstd = "0.13"
libc = "0.2"
thiserror = "2"
