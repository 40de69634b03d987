[package]
name = "binsync"
version = "0.1.0"
edition = "2021"
publish = false

[dependencies]
anyhow = "1"
flate2 = "=1.1.10"
itertools = "0.15"
log = "0.4"
paw = "1"
rayon = "1"
regex = "=1.13.1"
reqwest = { version = "0.12", default-features = false, features = ["blocking", "rustls-tls"] }
scraper = "=0.29.0"
stderrlog = "0.6"
structopt = { version = "0.3", features = ["paw"] }
tar = "=0.4.46"
tini = "=1.3.0"
xz2 = "=0.1.7"
zip = { version = "=8.6.0", default-features = false, features = ["bzip2", "deflate"] }
