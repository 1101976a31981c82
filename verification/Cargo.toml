[package]
name = "texel"
version = "0.1.0"
edition = "2021"
publish = false

[dependencies]
texel_types = { version = "=2.0.4", features = ["serde_support"] }
libflate = "=1.4.0"
ron = "=0.6.6"
serde = { version = "=1.0.229", features = ["derive"] }
crossterm = "=0.19.0"
rand = "=0.8.8"
dirs = "=3.0.2"
big_enum_set = "=0.3.0"
termion = "=1.5.6"
