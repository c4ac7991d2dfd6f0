[package]
name = "tile_board"
version = "0.1.0"
edition = "2021"
publish = false

[dependencies]
itertools = "0.11"
rand = "0.8"
