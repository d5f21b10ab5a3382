[package]
name = "ruffle_core"
version = "0.1.0"
edition = "2021"
publish = false

[dependencies]
base64 = "0.10"
inflate = "0.4"
png = "0.15"
jpeg-decoder = "0.1"
url = "1.7"
rand = "0.7"
smallvec = "0.6"
fnv = "1.0"
