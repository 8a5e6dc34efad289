[package]
name = "bin_io"
version = "0.1.0"
edition = "2021"
publish = false

[dependencies]
byteorder = "1"
quick-error = "1.2"
