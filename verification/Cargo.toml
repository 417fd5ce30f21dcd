[package]
name = "secret_pick"
version = "0.1.0"
edition = "2021"
publish = false

[dependencies]
fuzzy-matcher = "=0.3.7"
clap = { version = "=4.6.7", features = ["derive"] }
inquire = "=0.9.4"
k8s-openapi = { version = "=0.27.1", features = ["latest"] }
kube = "=3.1.0"
tokio = { version = "=1.53.2", features = ["macros", "rt-multi-thread"] }
