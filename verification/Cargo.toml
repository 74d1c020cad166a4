[package]
name = "mdtransform"
version = "0.1.0"
edition = "2021"
publish = false

[dependencies]
pulldown-cmark = { version = "0.9", default-features = false }
regex = "1"
lazy_static = "1"
structopt = "0.3"
