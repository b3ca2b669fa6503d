[package]
name = "sccache"
version = "0.1.0"
edition = "2021"
publish = false

[dependencies]
env_logger = "0.4"
futures = "0.1"
futures-cpupool = "0.1"
lmdb = "0.8"

[dev-dependencies]
tempdir = "0.3"
tempfile = "3"
