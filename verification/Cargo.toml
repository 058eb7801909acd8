[package]
name = "mcts"
version = "0.1.0"
edition = "2021"
publish = false

[dependencies]
chess = "3"
shakmaty = "*"
shakmaty-syzygy = "*"
crossbeam = "*"
