[package]
name = "ocw_labs"
version = "0.1.0"
edition = "2021"
publish = false

[dependencies]
rust-crypto = "*"
unicode-segmentation = "*"
treexml = "*"
serde_json = "*"
getopts = "*"
zmq = "*"
rand = "0.8"
jsonrpc-core = "*"
fma = "*"
GSL = "*"
