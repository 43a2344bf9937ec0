[package]
name = "cachemrc"
version = "0.1.0"
edition = "2021"
publish = false

[dependencies]
lru = "*"
hashbrown = "*"
fasthash = "*"
clap = { version = "4", features = ["derive"] }
csv = "1"
serde = { version = "1", features = ["derive"] }
toml = "*"
tracing = "0.1"
tracing-subscriber = "0.3"
gnuplot = "*"
