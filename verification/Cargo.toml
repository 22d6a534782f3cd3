[package]
name = "msgpack_numpy"
version = "0.1.0"
edition = "2021"
publish = false

[dependencies]
bytemuck = { version = "=1.25.2", features = ["extern_crate_alloc"] }
half = { version = "=2.7.1", features = ["bytemuck"] }
ndarray = "=0.16.1"
serde = "=1.0.229"
serde_bytes = "=0.11.19"

[dev-dependencies]
rmp-serde = "1"
