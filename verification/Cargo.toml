[package]
name = "ai_dataloader"
version = "0.1.0"
edition = "2021"
publish = false

[dependencies]
rand = "*"
once_cell = "*"
rayon = "*"
