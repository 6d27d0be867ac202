[package]
name = "xcm_extension"
version = "0.1.0"
edition = "2021"
publish = false

[dependencies]
parity-scale-codec = "=3.7.5"
staging-xcm = "=14.2.2"
log = "0.4"
scale-info = "2"
sp-runtime = "=39.0.5"
sp-std = "14"
sp-weights = "=31.1.0"
frame-support = "=38.2.0"
frame-system = "=38.0.0"
pallet-contracts = "=38.0.0"
pallet-xcm = "=17.0.5"
staging-xcm-executor = "=17.0.3"
ink = "=4.3.0"
