[package]
name = "pixi_experimental_backends"
version = "0.1.0"
edition = "2021"
publish = false

[dependencies]
async-trait = "*"
indexmap = "*"
miette = "*"
minijinja = "*"
rattler_conda_types = "*"
reqwest = { version = "*", default-features = false, features = ["json", "rustls-tls"] }
serde = { version = "*", features = ["derive"] }
serde_json = "*"
thiserror = "*"
tokio = { version = "*", features = ["macros", "rt-multi-thread"] }
toml = "*"
