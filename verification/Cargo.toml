[package]
name = "smithy4rs_core"
version = "0.1.0"
edition = "2021"
publish = false

[dependencies]
regex = "1"
bigdecimal = "*"
num-bigint = "*"
indexmap = "2"
bytebuffer = "*"
temporal_rs = "*"
