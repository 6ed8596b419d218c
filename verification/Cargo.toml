[package]
name = "networking"
version = "0.1.0"
edition = "2021"
publish = false

[dependencies]
bytemuck = { version = "=1.25.2", features = ["min_const_generics"] }
log = "=0.4.35"
netwatcher = "=0.6.0"
parking_lot = "=0.12.5"
rand = "=0.10.3"
socket2 = { version = "=0.6.5", features = ["all"] }
tokio = { version = "=1.54.1", features = ["net", "time", "macros", "rt"] }
zenoh = { version = "=1.10.2", default-features = false }
