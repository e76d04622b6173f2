[package]
name = "ambient_indexer"
version = "0.1.0"
edition = "2021"
publish = false

[dependencies]
cosmos-sdk-proto-althea = "=0.22.0"
althea_proto = "=0.12.0"
prost = "=0.13.5"
chrono = "=0.4.45"
actix-web = { version = "=4.15.0", features = ["rustls-0_23"] }
actix-cors = "*"
clap = { version = "*", features = ["derive"] }
clarity = "=1.7.0"
web30 = "=1.15.0"
deep_space = "=2.33.1"
serde = { version = "*", features = ["derive"] }
serde_json = "*"
bincode = "=1.3.3"
tokio = { version = "=1.53.2", features = ["macros", "rt-multi-thread", "time"] }
tonic = "=0.12.3"
env_logger = "*"
log = "*"
num_cpus = "*"
futures = "*"
rustls = "*"
openssl-probe = "*"
num-traits = "*"
rust_decimal = "*"
