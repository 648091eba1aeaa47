[package]
name = "pixel_invaders"
version = "0.1.0"
edition = "2021"
publish = false

[dependencies]
cortex-m = "0.7"
heapless = "0.8"
microbit-v2 = "0.13"
panic-halt = "0.2"
rtic = { version = "2", features = ["thumbv7-backend"] }
rtic-sync = "1"
rtt-target = "*"
void = { version = "1", default-features = false }

[dev-dependencies]
critical-section = { version = "1", features = ["std"] }
