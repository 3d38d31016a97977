[package]
name = "sppm"
version = "0.1.0"
edition = "2021"
publish = false

[dependencies]
vecmat = "*"
json = "*"
image = "*"
rand = "0.8"
tobj = "*"

[dev-dependencies]
adqselect = "*"
