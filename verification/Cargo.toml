[package]
name = "crowdloans"
version = "0.1.0"
edition = "2021"
publish = false

[dependencies]
frame-support = "=49.0.1"
frame-system = "=49.0.0"
parity-scale-codec = "=3.7.5"
polkadot-parachain-primitives = "=24.0.0"
sp-io = "=49.0.0"
sp-runtime = "=49.0.0"
staging-xcm = "=25.0.0"
