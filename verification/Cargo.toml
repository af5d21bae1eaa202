[package]
name = "byte_utils"
version = "0.1.0"
edition = "2021"
publish = false

[dependencies]
buf-list = "=1.1.2"
bytes = "=1.12.1"
nexosim = "=0.3.4"
nexosim-util = "=0.1.0"
mio = { version = "=1.2.4", features = ["os-poll", "net"] }
mio-serial = "=5.0.7"
socketcan = "=4.0.0"
schematic = "=0.20.8"
serde = { version = "=1.0.229", features = ["derive"] }
tracing = "=0.1.44"
