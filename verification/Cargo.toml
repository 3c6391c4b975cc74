[package]
name = "rhythm_player"
version = "0.1.0"
edition = "2021"
publish = false

[dependencies]
symphonia = "0.5"
rubato = "*"
