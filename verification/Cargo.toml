[package]
name = "petalo"
version = "0.1.0"
edition = "2021"
publish = false

[dependencies]
bincode = "=1.3.3"
hdf5 = "=0.8.1"
ncollide3d = "=0.33.0"
ndarray = "=0.15.6"
ndhistogram = "=0.6.3"
num-traits = "=0.2.19"
serde = { version = "1", features = ["derive"] }
structopt = "=0.3.26"
