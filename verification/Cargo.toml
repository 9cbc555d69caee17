[package]
name = "capsula"
version = "0.1.0"
edition = "2021"
publish = false

[dependencies]
glob = "*"
percent-encoding = "*"
serde = { version = "*", features = ["derive"] }
serde_json = "*"
toml = "*"
serde_yaml = "*"
walkdir = "*"
sysinfo = "*"
gix = "*"
reqwest = { version = "*", default-features = false, features = ["blocking", "multipart", "json"] }
clap = { version = "*", features = ["derive"] }
chrono = "*"
dotenvy = "*"
shlex = "*"
tracing = "*"
tracing-subscriber = { version = "*", features = ["env-filter"] }
anyhow = "*"
thiserror = "*"
sha2 = "*"
