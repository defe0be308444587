[package]
name = "frugalos"
version = "0.1.0"
edition = "2021"
publish = false

[dependencies]
siphasher = "=0.3.11"
clap = "=2.34.0"
libfrugalos = "=0.7.0"
serde = { version = "=1.0.229", features = ["derive"] }
serde_yaml = "=0.8.26"
num_cpus = "=1.17.0"
prometrics = "=0.1.13"
fibers_rpc = "=0.3.4"
