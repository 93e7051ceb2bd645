[package]
name = "trombinoscope"
version = "0.1.0"
edition = "2021"
publish = false

[dependencies]
bitcode = "0.6"
img-parts = "0.3"
image = { version = "0.25", default-features = false, features = ["jpeg", "png"] }
show-image = { version = "0.14", features = ["image"] }
clap = { version = "4", features = ["derive"] }
rustface = "0.1"
