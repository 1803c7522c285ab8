[package]
name = "sshack"
version = "0.2.0"
edition = "2021"
publish = false

[dependencies]
bcrypt = "=0.19.3"
anyhow = "=1.0.104"
clap = { version = "=4.6.7", features = ["derive"] }
ratatui = "=0.30.2"
rusqlite = { version = "=0.41.1", features = ["bundled"] }
russh = "=0.65.1"
russh-sftp = "=3.0.1"
serde = { version = "=1.0.229", features = ["derive"] }
serde_yaml_ng = "=0.10.0"
tachyonfx = { version = "=0.25.2", features = ["sendable"] }
terminput = "=0.5.16"
terminput-crossterm = "=0.4.12"
tokio = { version = "=1.54.1", features = ["rt-multi-thread", "macros", "sync", "time"] }
toml = "=1.1.8"
