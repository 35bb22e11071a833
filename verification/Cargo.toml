[package]
name = "http_framed"
version = "0.1.0"
edition = "2021"
publish = false

[dependencies]
bytes = "1"
http = "1"
httparse = "1"
httpdate = "1"
futures = "0.3"
log = "0.4"
env_logger = "0.11"
pin-project-lite = "0.2"
