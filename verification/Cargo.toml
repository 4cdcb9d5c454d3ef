[package]
name = "fuzzyplot"
version = "0.1.0"
edition = "2021"
publish = false

[dependencies]
anyhow = "1"
clap = "=2.34.0"
image = "=0.25.10"
indicatif = "=0.18.6"
mexprp = { version = "=0.3.1", default-features = false }
structopt = "=0.3.26"
