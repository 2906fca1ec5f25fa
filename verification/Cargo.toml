[package]
name = "usque"
version = "0.1.0"
edition = "2021"
publish = false

[dependencies]
base64 = "=0.22.1"
boring = "=5.4.0"
bytes = "=1.12.1"
chrono = { version = "=0.4.45", default-features = false, features = ["clock", "std"] }
clap = { version = "=4.6.7", default-features = false, features = ["derive", "help", "std", "usage"] }
colored = "2"
configparser = "=3.3.0"
der = "=0.7.10"
env_logger = { version = "=0.11.11", default-features = false }
fast-socks5 = "=1.0.0"
futures = "=0.3.34"
gotatun = { version = "=0.2.0", default-features = false }
hex = "=0.4.3"
hickory-proto = { version = "=0.25.2", default-features = false, features = ["std"] }
hickory-resolver = { version = "=0.25.2", default-features = false, features = ["tokio"] }
log = "=0.4.35"
p256 = { version = "=0.13.2", features = ["ecdsa", "pem", "pkcs8"] }
quiche = "=0.30.0"
quick_cache = "=0.6.24"
rand = "=0.9.5"
reqwest = { version = "=0.12.28", default-features = false, features = ["json", "rustls-tls"] }
ring = "=0.17.14"
serde = { version = "=1.0.229", features = ["derive"] }
serde_json = "=1.0.154"
signature = "=2.2.0"
smoltcp = { version = "=0.12.0", features = ["socket-tcp-cubic"] }
socket2 = "=0.6.5"
spki = "=0.7.3"
tokio = { version = "=1.54.1", features = ["full"] }
x509-cert = { version = "=0.2.5", features = ["builder"] }
