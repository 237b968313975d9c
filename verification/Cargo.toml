[package]
name = "file_manager"
version = "0.1.0"
edition = "2021"
publish = false

[dependencies]
glob = "0.3"
base64 = "0.22"
mime_guess = "2"
walkdir = "2"
rayon = "1"
trash = "5"
dirs = "5"
sysinfo = "0.30"
notify = "6"
libc = "0.2"
serde = { version = "1", features = ["derive"] }
tracing = "0.1"
thiserror = "1"
tokio = { version = "1", features = ["rt", "rt-multi-thread", "sync"] }

[dev-dependencies]
tempfile = "3"
