[package]
name = "geoarrow"
version = "0.1.0"
edition = "2021"
publish = false

[dependencies]
arrow2 = { version = "0.17", default-features = false }
geo = "0.25"
geozero = { version = "0.9", features = ["with-wkb"] }
rstar = "0.10"
