[package]
name = "netmd"
version = "0.1.0"
edition = "2021"
publish = false

[dependencies]
encoding_rs = "=0.8.44"
unicode-normalization = "=0.1.26"
des = "=0.8.1"
cbc = "=0.1.2"
ecb = "=0.1.2"
cipher = "=0.4.4"
rand = "=0.9.5"
rusb = "=0.9.4"
anyhow = "=1.0.104"
thiserror = "=2.0.21"
log = "=0.4.35"
env_logger = "=0.11.11"
clap = { version = "=4.6.7", features = ["derive"] }
hound = "=3.5.1"
symphonia = "=0.6.1"
rubato = "=1.0.1"
lofty = "=0.22.4"
tempfile = "=3.27.0"
ratatui = "=0.29.0"
crossterm = "=0.28.1"
