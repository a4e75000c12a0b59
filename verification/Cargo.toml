[package]
name = "osm_pbf_iter"
version = "0.1.0"
edition = "2021"
publish = false

[dependencies]
protobuf_iter = "*"
flate2 = "*"
byteorder = "*"
num_cpus = "*"
