[package]
name = "composefs_sync"
version = "0.1.0"
edition = "2021"
publish = false

[dependencies]
anyhow = "1"
base64 = "0.22"
cap-std-ext = "*"
libc = "0.2"
log = "0.4"
oci-spec = "*"
rustix = { version = "1", features = ["fs", "mount", "net", "pipe", "process"] }
semver = "1"
serde = { version = "1", features = ["derive"] }
serde_json = "1"
sha2 = "*"
thiserror = "2"
tokio = { version = "1", features = ["net", "rt", "rt-multi-thread", "sync"] }
tracing = "0.1"
zlink = "*"
