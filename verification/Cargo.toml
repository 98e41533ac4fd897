[package]
name = "blit"
version = "0.8.0"
edition = "2021"
publish = false

[dependencies]
num-traits = "0.2"
aseprite = "0.1"
serde = { version = "1", features = ["derive"] }
thiserror = "1"
quick-error = "2"
palette = { version = "0.6", default-features = false, features = ["std"] }
image = { version = "0.24", default-features = false }
