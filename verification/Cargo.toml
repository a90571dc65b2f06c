[package]
name = "dbsampler"
version = "0.1.0"
edition = "2021"
publish = false

[dependencies]
hashbrown = "*"
nohash-hasher = "*"
rand = "0.8"
rayon = "*"
rblas = "*"
