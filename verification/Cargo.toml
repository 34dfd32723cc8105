[package]
name = "openml"
version = "0.1.0"
edition = "2021"
publish = false

[dependencies]
arff = "=0.2.1"
fs2 = "=0.4.3"
futures = "=0.1.31"
hyper = "=0.12.36"
hyper-tls = "=0.3.2"
log = "=0.4.34"
serde = "=1.0.229"
serde_derive = "=1.0.229"
serde_json = "=1.0.154"
tokio-core = "=0.1.18"
