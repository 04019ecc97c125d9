[package]
name = "tty_share"
version = "0.1.0"
edition = "2021"
publish = false

[dependencies]
anyhow = "1"
bytes = "1"
error-chain = "0.12"
failure = "0.1"
futures = "0.3"
libc = "0.2"
mio = "0.6"
nix = "0.26"
structopt = "0.3"
thiserror = "1"
tokio = { version = "1", features = ["fs", "io-util", "macros", "net", "process", "rt-multi-thread", "signal"] }

[dev-dependencies]
bincode = "1"
