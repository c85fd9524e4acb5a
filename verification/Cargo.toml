[package]
name = "rscheck"
version = "0.1.0"
edition = "2021"
publish = false

[dependencies]
annotate-snippets = "0.12"
cargo_metadata = "0.19"
clap = { version = "4", features = ["derive"] }
globset = "0.4"
ignore = "0.4"
proc-macro2 = { version = "1", features = ["span-locations"] }
quote = "1"
regex = "1"
serde = { version = "1", features = ["derive"] }
serde_json = "1"
similar = "2"
syn = { version = "2", features = ["full", "visit", "extra-traits"] }
thiserror = "2"
toml = "0.9"
tracing-subscriber = { version = "0.3", features = ["env-filter"] }

[dev-dependencies]
tempfile = "3"
