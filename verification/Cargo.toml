[package]
name = "memequeue"
version = "0.1.0"
edition = "2021"
publish = false

[dependencies]
clap = { version = "4", features = ["derive"] }
crc = "3"
futures = "0.3"
humansize = "2"
libc = "0.2"
nix = { version = "0.27", features = ["socket", "uio", "fs"] }
postcard = { version = "1", features = ["use-std"] }
quanta = "0.12"
rand = "0.8"
rand_xorshift = "0.3"
serde = { version = "1", features = ["derive"] }
serde_json = "1"
smallvec = { version = "1", features = ["serde"] }
tokio = { version = "1", features = ["full"] }
tokio-util = { version = "0.7", features = ["codec"] }
