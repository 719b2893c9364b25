[package]
name = "eq_common"
version = "0.1.0"
edition = "2021"
publish = false

[dependencies]
celestia-types = "=0.10.1"
nmt-rs = "=0.2.5"
tendermint = "=0.40.4"
tendermint-proto = "=0.40.4"
sha3 = "=0.10.9"
rand = "=0.8.8"
hex = "0.4"
serde = { version = "1", features = ["derive"] }
serde_json = "1"
thiserror = "1"
bincode = "1.3"
clap = { version = "4", default-features = false, features = ["std", "derive", "help", "usage", "error-context"] }
tokio = { version = "1", default-features = false, features = ["rt-multi-thread", "macros", "time"] }
tonic = "0.12"
prost = "0.13"
sled = "0.34"
