[package]
name = "keyboard_map_shift"
version = "0.1.0"
edition = "2021"
publish = false

[dependencies]
unicode-bidi = "*"
clap = { version = "*", features = ["derive"] }
directories = "*"
serde = { version = "*", features = ["derive"] }
toml = "*"
quick-xml = { version = "*", features = ["serialize"] }
xkbcommon = "*"
