[package]
name = "lemonbeatd"
version = "0.1.0"
edition = "2021"
publish = false

[dependencies]
aes = "=0.7.5"
anyhow = "=1.0.104"
argh = "=0.1.19"
async-trait = "0.1"
block-modes = "=0.8.1"
chrono = "=0.4.45"
crc = "=3.4.0"
dbus = "0.9"
dbus-tokio = "0.7"
futures = "=0.3.34"
hex = { version = "=0.4.3", features = ["serde"] }
humantime-serde = "=1.1.1"
libc = "=0.2.191"
macaddr = "=1.0.1"
nix = "=0.23.2"
num-bigint = "=0.4.8"
num-traits = "=0.2.19"
quick-xml = "0.31"
rand = "=0.8.8"
regex = "=1.13.1"
rsa = "=0.9.10"
serde = { version = "=1.0.229", features = ["derive"] }
serde_json = "=1.0.154"
serde_yaml = "=0.9.34"
sha2 = "=0.10.9"
tokio = { version = "=1.54.1", features = ["fs", "io-util", "macros", "net", "process", "rt", "sync", "time"] }
tracing = "=0.1.44"
version-compare = "=0.2.1"
