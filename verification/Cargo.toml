[package]
name = "h5rio"
version = "0.2.0"
edition = "2021"
publish = false

[dependencies]
hdf5-metno = { version = "*", features = ["blosc-zlib"] }
ndarray = "*"
