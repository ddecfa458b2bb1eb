[package]
name = "httpbench"
version = "0.1.0"
edition = "2021"
publish = false

[dependencies]
rand = "0.8"
hdrhistogram = "7"
ureq = "2"
clap = "4"
url = "2"
log = "0.4"
env_logger = "0.10"
indicatif = "0.17"
