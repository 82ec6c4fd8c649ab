[package]
name = "loft_raw"
version = "0.1.0"
edition = "2021"
publish = false

[dependencies]
bytemuck = "1"
memmap2 = "0.9"
postcard = { version = "1", features = ["use-std"] }
rawler = "*"
rustix = { version = "1", features = ["net", "shm", "fs"] }
serde = { version = "1", features = ["derive"] }
objc2 = "0.6"
objc2-core-foundation = "0.3"
objc2-core-graphics = "0.3"
objc2-core-image = "0.3"
objc2-foundation = "0.3"
objc2-image-io = "0.3"
objc2-uniform-type-identifiers = "0.3"
