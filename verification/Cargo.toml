[package]
name = "dungeon_world"
version = "0.1.0"
edition = "2021"
publish = false

[dependencies]
grid = "*"
nalgebra = "*"
ratatui = "*"
crossterm = "*"
color-eyre = "*"
