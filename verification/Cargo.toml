[package]
name = "alg2a-tools"
version = "0.1.0"
edition = "2021"
publish = false

[dependencies]
libm = "0.2"
cortex-m = "0.7"
embedded-alloc = "0.6"
