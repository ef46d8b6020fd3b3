[package]
name = "io_dispatcher"
version = "0.1.0"
edition = "2021"
publish = false

[dependencies]
either = "=1.19.0"
futures = "=0.3.34"
log = "=0.4.35"
ntex = "=0.2.0"
pin-project-lite = "=0.2.17"
