[package]
name = "particle_life"
version = "0.1.0"
edition = "2021"
publish = false

[dependencies]
rand = "0.8"
rand_distr = "0.4"
phf = { version = "0.11", features = ["macros"] }
macroquad = "0.3"
