[package]
name = "buildkit_llb"
version = "0.1.0"
edition = "2021"
publish = false

[dependencies]
prost = { version = "0.13", default-features = false, features = ["std"] }
sha2 = "0.10"
tokio = { version = "1", features = ["net"] }
mio = { version = "1", features = ["os-ext"] }
libc = "0.2"
pin-project = "1"
tonic = { version = "0.12", default-features = false, features = ["transport"] }
