[package]
name = "docker_manager"
version = "0.1.0"
edition = "2021"
publish = false

[dependencies]
regex = "*"
openssh = "*"
tokio = { version = "*", features = ["full"] }
futures = "*"
clap = { version = "*", features = ["derive"] }
clap_complete = "*"
log = "*"
defaultdict = "*"
