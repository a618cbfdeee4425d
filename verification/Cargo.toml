[package]
name = "mole"
version = "0.1.0"
edition = "2021"
publish = false

[dependencies]
chrono = "=0.4.45"
pulldown-cmark = "=0.8.0"
liquid = "=0.21.5"
liquid-core = "=0.21.3"
liquid-lib = { version = "=0.21.2", features = ["jekyll"] }
kstring = "=1.0.6"
serde_json = "=1.0.151"
log = "=0.4.34"
argh = "=0.1.19"
notify = "=4.0.18"
tiny_http = "=0.12.0"
mime_guess = "=2.0.5"
simple_logger = "=4.3.3"
grass = "=0.13.4"
