[package]
name = "kenshi"
version = "0.1.3"
edition = "2021"
publish = false

[dependencies]
regex = "1"
console = "0.15"
getopts = "0.2"
reqwest = { version = "0.11", features = ["rustls-tls", "trust-dns", "gzip", "brotli", "deflate", "socks"] }
tokio = { version = "1", features = ["rt-multi-thread", "macros", "time"] }
futures = "0.3"
hyper = "0.14"
trust-dns-resolver = "0.22"
indicatif = "0.17"
env_logger = "0.10"
log = "0.4"
rand = "0.8"
is-terminal = "0.4"
rlimit = "0.10"
sysinfo = "0.29"
mlua = { version = "0.9", features = ["lua54", "vendored"] }
