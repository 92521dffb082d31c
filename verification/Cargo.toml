[package]
name = "rnix_normalize"
version = "0.1.0"
edition = "2021"
publish = false

[dependencies]
itertools = "=0.10.5"
rnix = "=0.11.0"
serde = { version = "=1.0.229", features = ["derive"] }
serde_json = { version = "=1.0.154", features = ["unbounded_depth"] }
serde_stacker = "=0.1.14"
assert-json-diff = "=2.0.2"
clap = { version = "=3.2.25", features = ["derive"] }
globwalk = "=0.8.1"
libc = "=0.2.191"
