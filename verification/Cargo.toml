[package]
name = "morty_rs"
version = "0.1.0"
edition = "2021"
publish = false

[dependencies]
base64 = "*"
nmea0183 = "*"
uuid = { version = "*", features = ["v4"] }

[dev-dependencies]
crc8 = "*"
