[package]
name = "mistletoe"
version = "0.1.0"
edition = "2021"
publish = false

[dependencies]
anyhow = "=1.0.104"
clap = "=4.6.7"
colored = "=2.2.0"
git2 = { version = "=0.18.3", default-features = false }
home = "=0.5.12"
indexmap = { version = "=2.14.2", features = ["serde"] }
k8s-openapi = { version = "=0.20.0", features = ["latest"] }
kube = { version = "=0.87.2", default-features = false, features = ["client"] }
once_cell = "=1.21.4"
serde = { version = "=1.0.229", features = ["derive"] }
serde_yaml = "=0.9.34"
tokio = { version = "=1.54.1", features = ["macros", "rt-multi-thread"] }
wasmer = "=7.0.1"
