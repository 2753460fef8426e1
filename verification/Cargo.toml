[package]
name = "rsheet"
version = "0.1.0"
edition = "2021"
publish = false

[dependencies]
bmp = "=0.5.0"
clap = { version = "=4.6.7", features = ["derive"] }
csv = "=1.4.0"
enum-iterator = "=2.3.0"
geoutils = "=0.5.1"
indexmap = "=2.14.2"
itertools = "=0.15.0"
log = "=0.4.34"
ortalib = "=1.1.0"
rand = "=0.9.5"
ron = "=0.12.2"
rsheet_lib = "=0.2.0"
rustyline = "=10.1.1"
serde = { version = "=1.0.229", features = ["derive"] }
serde_yaml = "=0.9.34"
termgame = "=1.3.0"
yaml-rust = "=0.4.5"
