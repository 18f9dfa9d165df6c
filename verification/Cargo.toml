[package]
name = "ublox-sockets"
version = "0.5.0"
edition = "2021"
publish = false

[dependencies]
defmt = "0.3"
embassy-time = "0.3"
no-std-net = "0.6"
serde = { version = "1", default-features = false, features = ["derive"] }

[dev-dependencies]
critical-section = { version = "1", features = ["std"] }
embassy-time = { version = "0.3", features = ["mock-driver"] }
