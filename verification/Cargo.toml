[package]
name = "nscan"
version = "0.1.0"
edition = "2021"
publish = false

[dependencies]
chrono = "=0.4.45"
clap = "=2.34.0"
crossterm = "=0.19.0"
dns-lookup = "=1.0.8"
fastping-rs = "=0.2.4"
indicatif = "=0.15.0"
ipnet = "=2.12.2"
log = "=0.4.34"
oui = "=0.8.1"
pnet = "=0.34.0"
pnet_datalink = "=0.34.0"
rayon = "=1.12.0"
regex = "=1.13.1"
rusqlite = { version = "=0.24.2", features = ["bundled"] }
tokio = { version = "=1.54.1", features = ["macros", "rt-multi-thread"] }
winping = "=0.10.1"
