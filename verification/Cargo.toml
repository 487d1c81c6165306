[package]
name = "kernel"
version = "0.1.0"
edition = "2021"
publish = false

[dependencies]
bitfield = "0.14"
bitflags = "2"
spin = "0.9"
volatile = "0.2"
