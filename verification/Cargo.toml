[package]
name = "navmesh"
version = "0.1.0"
edition = "2021"
publish = false

[dependencies]
petgraph = "*"
typid = "*"
serde = { version = "*", features = ["derive"] }
