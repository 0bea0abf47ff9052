[package]
name = "outbound"
version = "0.1.0"
edition = "2021"
publish = false

[dependencies]
pathfinding = "*"
raylib = "*"
