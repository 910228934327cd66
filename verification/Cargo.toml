[package]
name = "grove"
version = "0.1.0"
edition = "2021"
publish = false

[dependencies]
anyhow = "1"
clap = { version = "4", features = ["derive"] }
clap_complete = "4"
console = "*"
dialoguer = { version = "*", features = ["fuzzy-select"] }
directories = "*"
libc = "0.2"
minijinja = "2"
rusqlite = { version = "*", features = ["bundled"] }
serde = { version = "1", features = ["derive"] }
tabled = "*"
toml = "*"
