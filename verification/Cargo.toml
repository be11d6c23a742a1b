[package]
name = "omnect_os_init"
version = "0.1.0"
edition = "2021"
publish = false

[dependencies]
log = { version = "=0.4.35", features = ["std"] }
nix = { version = "=0.30.1", features = ["fs", "mount", "process", "reboot", "user"] }
serde = "=1.0.229"
serde_json = { version = "=1.0.154", features = ["preserve_order"] }
