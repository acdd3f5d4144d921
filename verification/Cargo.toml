[package]
name = "davinci_metrics"
version = "0.1.0"
edition = "2021"
publish = false

[dependencies]
regex = "=1.13.1"
lexical-core = "=0.8.5"
text2num = "=1.7.0"
teloxide = "=0.12.2"
tokio = { version = "=1.54.1", features = ["rt"] }
dptree = "=0.3.0"
# Not called from this crate. teloxide-core asks for takecell 0.1; this line
# keeps it at 0.1.1, the last release that builds with Rust 1.95.
takecell = "=0.1.1"
