[package]
name = "clusterpluk"
version = "0.1.0"
edition = "2021"
publish = false

[dependencies]
bio = "*"
log = "*"
env_logger = "*"
