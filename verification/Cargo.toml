[package]
name = "termlink"
version = "0.1.0"
edition = "2021"
publish = false

[dependencies]
anyhow = "1"
async-executor = "1"
async-io = "2"
async-task = "4"
camino = "1"
chrono = "0.4"
clap = { version = "4", features = ["derive"] }
crossbeam = "0.8"
dns-lookup = "2"
finl_unicode = { version = "1", features = ["grapheme_clusters"] }
flume = "0.11"
hostname = "0.4"
lazy_static = "1"
libc = "0.2"
libssh-rs = { version = "0.3", features = ["vendored"] }
log = "0.4"
nix = { version = "0.29", features = ["signal"] }
num-traits = "0.2"
openssl = "0.10"
parking_lot = "0.12"
passfd = "0.1"
rcgen = { version = "0.12", features = ["x509-parser"] }
smol = "2"
socket2 = { version = "0.5", features = ["all"] }
ssh2 = "0.9"
textwrap = "0.16"
thiserror = "1"
