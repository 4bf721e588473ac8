[package]
name = "materialist"
version = "0.1.0"
edition = "2021"
publish = false

[dependencies]
anyhow = "*"
axum = "*"
base64 = "*"
bytes = "*"
dom_query = "*"
fastrand = "*"
http = "*"
jiff = "*"
kanal = "*"
kdl = "*"
libc = "*"
libsystemd-sys = "*"
reqwest = { version = "*", features = ["json"] }
rusqlite = { version = "*", features = ["bundled"] }
rustix = { version = "*", features = ["process"] }
serde = { version = "*", features = ["derive"] }
serde_json = "*"
tokio = { version = "*", features = ["full"] }
url = "*"
zstd = "*"
