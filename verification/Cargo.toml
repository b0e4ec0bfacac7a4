[package]
name = "prototyper"
version = "0.1.0"
edition = "2021"
publish = false

[dependencies]
sbi-spec = "*"
log = "*"
spin = "*"
riscv = "*"
serde-device-tree = "*"
fast-trap = "*"
