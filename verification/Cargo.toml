[package]
name = "srv"
version = "0.1.0"
edition = "2021"
publish = false

[dependencies]
bytes = "=0.4.12"
chrono = "=0.4.45"
cursive = "=0.21.1"
fern = "=0.7.1"
futures = "=0.1.31"
hyper = "=0.12.36"
hyper-tls = "=0.3.2"
log = "=0.4.34"
log-panics = "=2.1.0"
ndarray = "=0.17.2"
screeps-api = "=0.6.0"
serde = "=1.0.118"
serde_derive = "=1.0.118"
serde_json = "=1.0.85"
structopt = "=0.3.26"
tokio = "=0.1.22"
websocket = "=0.27.1"
