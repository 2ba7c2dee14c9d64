[package]
name = "accuracy_benchmark"
version = "0.1.0"
edition = "2021"
publish = false

[dependencies]
whatlang = { version = "=0.18.0", features = ["dev", "enum-map"] }
whichlang = "=0.1.1"
enum-map = "2"
prettytable-rs = "=0.10.0"
colored = "=3.1.1"
rayon = "=1.12.0"
structopt = "=0.3.26"
chrono = "=0.4.45"
