[package]
name = "fp"
version = "0.1.0"
edition = "2021"
publish = false

[dependencies]
regex = "=1.13.1"
memchr = "=2.8.3"
serde_json = "=1.0.154"
grok = "=2.4.1"
time = { version = "=0.3.55", features = ["parsing", "formatting"] }
url = "=2.5.8"
termwiz = "=0.23.3"
vte = "=0.15.0"
tokio = { version = "=1.54.1", features = ["full"] }
clap = { version = "=4.6.7", features = ["derive"] }
anyhow = "=1.0.104"
serde = { version = "=1.0.229", features = ["derive"] }
qstring = "=0.7.2"
sha2 = "=0.10.9"
hex = "=0.4.3"
crossterm = "=0.27.0"
directories = "=5.0.1"
toml = "0.8"
clap_complete = "4"
