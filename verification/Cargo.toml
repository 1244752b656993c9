[package]
name = "pn532"
version = "0.5.0"
edition = "2021"
publish = false

[dependencies]
embedded-hal = "1.0"
nb = "1"
serialport = { version = "4", default-features = false }

[dev-dependencies]
embedded-hal-mock = { version = "0.11", default-features = false, features = ["eh1"] }
