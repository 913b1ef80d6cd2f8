[package]
name = "omnical"
version = "0.1.0"
edition = "2021"
publish = false

[dependencies]
astro = "*"
clap = { version = "*", features = ["derive"] }

[dev-dependencies]
chrono = "*"
chinese-lunisolar-calendar = "*"
nongli = "*"
