[package]
name = "mintlayer"
version = "0.1.0"
edition = "2021"
publish = false

[dependencies]
anyhow = "1"
async-trait = "0.1"
bigint = "4"
byteorder = "1"
clap = { version = "3", default-features = false, features = ["derive", "std"] }
digest = "0.10"
dyn-clone = "1"
futures = "0.3"
heapsize = "0.4"
hex = "0.4"
itertools = "0.10"
jsonrpc-core = "18"
jsonrpc-derive = "18"
jsonrpc-http-server = "18"
lazy_static = "1"
parity-scale-codec = { version = "3", features = ["derive"] }
rustc-hex = "2"
serde = { version = "1", features = ["derive"] }
serde_json = "1"
strum = { version = "0.24", features = ["derive"] }
thiserror = "1"
tokio = { version = "1", features = ["rt", "rt-multi-thread", "macros", "sync", "net", "time"] }
void = "1"
