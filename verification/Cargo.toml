[package]
name = "holding"
version = "0.1.0"
edition = "2021"
publish = false

[dependencies]
anyhow = "1"
clap = { version = "3", features = ["derive"] }
clap_generate = "3"
colored = "2"
dnd_dice_roller = "*"
human-panic = "1"
itertools = "0.10"
lazy_static = "1"
num_enum = "0.5"
ordinal = "*"
regex = "1"
serde = { version = "1", features = ["derive"] }
serde_yaml = "0.8"
strum = "*"
strum_macros = "*"
thiserror = "1"
uuid = { version = "0.8", features = ["v4", "serde"] }
