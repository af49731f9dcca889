[package]
name = "cargo_workspaces"
version = "0.1.0"
edition = "2021"
publish = false

[dependencies]
camino = "1"
clap = { version = "3", features = ["derive"] }
globset = "0.4"
semver = "1"
