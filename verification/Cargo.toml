[package]
name = "bridge_grandpa"
version = "0.1.0"
edition = "2021"
publish = false

[dependencies]
sp-core = "*"
sp-runtime = "*"
frame-support = "*"
frame-system = "*"

[dev-dependencies]
sp-consensus-grandpa = "*"
finality-grandpa = "*"
parity-scale-codec = "*"
