[package]
name = "lspterm"
version = "0.1.0"
edition = "2021"
publish = false

[dependencies]
nojson = "=0.3.15"
orfail = "=2.0.0"
noargs = "=0.4.3"
unicode-width = "=0.2.2"
