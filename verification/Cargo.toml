[package]
name = "terra_os_kernel"
version = "0.1.0"
edition = "2021"
publish = false

[dependencies]
heapless = "=0.8.0"
volatile = "=0.4.6"
