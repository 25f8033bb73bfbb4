[package]
name = "drive_explorer"
version = "0.1.0"
edition = "2021"
publish = false

[dependencies]
rand = "0.8"
indexmap = "1.9"
serde = { version = "1", features = ["derive"] }
serde_json = "1"
bincode = "1"
rustyline = "9"
bs58 = "0.4"
chrono = "0.4"
ciborium = "0.2"
hex = "0.4"
itertools = "0.10"
num-integer = "0.1"
prettytable-rs = "0.10"
rand_distr = "0.4"
