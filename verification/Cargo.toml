[package]
name = "p2p_rpc"
version = "0.1.0"
edition = "2021"
publish = false

[dependencies]
discv5 = "*"
enr = "*"
libp2p = { version = "*", default-features = false }
tokio = { version = "*", features = ["rt", "rt-multi-thread", "time", "macros", "sync"] }
eyre = "*"
async-trait = "*"
