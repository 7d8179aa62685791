[package]
name = "bevy_daw"
version = "0.1.0"
edition = "2021"
publish = false

[dependencies]
assert_no_alloc = "1.1"
bevy = { version = "0.16", default-features = false }
cpal = "0.16"
hashbrown = "0.15"
heapless = "0.8"
spin = "0.9"
