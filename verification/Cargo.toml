[package]
name = "rticx-rp2040"
version = "0.1.0"
edition = "2021"
publish = false

[dependencies]
proc-macro2 = "=1.0.107"
quote = "=1.0.47"
syn = { version = "=2.0.119", features = ["full", "extra-traits"] }
rticx-core = "=0.2.0"
rticx-sw-pass = "=0.2.0"
rticx-async-pass = "=0.2.1"
rticx-auto-assign = "=0.2.0"
rticx-async = "=0.2.0"
heapless = "=0.8.0"
itoa = "=1.0.18"
fugit = "=0.3.9"
embedded-hal = { version = "=0.2.7", features = ["unproven"] }
cortex-m = "=0.7.10"
rp2040-hal = "=0.10.2"
rp2040-boot2 = "0.3"
defmt = "1"
