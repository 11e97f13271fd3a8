[package]
name = "typify"
version = "0.1.0"
edition = "2021"
publish = false

[dependencies]
semver = "1"
serde = { version = "1", features = ["derive"] }
serde_json = "1"
schemars = "0.8"
syn = { version = "2", features = ["full"] }
quote = "1"
proc-macro2 = "1"
thiserror = "2"
unicode-ident = "1"
clap = { version = "4", features = ["derive"] }
color-eyre = "0.6"
log = "0.4"
rustfmt-wrapper = "0.2"
