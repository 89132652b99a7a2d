[package]
name = "rose"
version = "0.1.0"
edition = "2021"
publish = false

[dependencies]
x86_64 = { version = "0.14", default-features = false, features = ["instructions"] }
pc-keyboard = "0.7"
pic8259 = { version = "0.10", default-features = false }
spin = "0.9"
lazy_static = { version = "1", features = ["spin_no_std"] }
bootloader = { version = "0.9", features = ["map_physical_memory"] }
