[package]
name = "raft"
version = "0.1.0"
edition = "2021"
publish = false

[dependencies]
crossbeam = "0.8"
env_logger = "0.11"
log = "0.4"
rand = "0.9"
rand_distr = "0.5"
