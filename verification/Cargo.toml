[package]
name = "embassy"
version = "0.3.0"
edition = "2021"
publish = false

[dependencies]
anyhow = "1"
async-trait = "0.1"
bollard = "0.11"
chrono = "0.4"
clap = "2"
emver = "0.1"
file-lock = "=2.0.2"
futures = "0.3"
hashlink = "0.8"
http = "0.2"
id-pool = { version = "0.2", default-features = false, features = ["u16"] }
indexmap = "1"
itertools = "0.10"
linear-map = "1.2"
log = "0.4"
rand = "0.8"
regex = "1"
reqwest = { version = "0.11", default-features = false, features = ["stream"] }
rpc-toolkit = "0.2"
serde = { version = "1", features = ["derive"] }
serde_cbor = "0.11"
serde_json = "1"
serde_yaml = "0.8"
sha2 = "0.10"
thiserror = "1"
tokio = { version = "1", features = ["full"] }
tokio-tar = "0.3"
toml = "0.5"
url = "2"
