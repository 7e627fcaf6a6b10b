[package]
name = "wkd-exporter"
version = "0.1.0"
edition = "2021"
publish = false

[dependencies]
clap = { version = "4", features = ["derive"] }
email_address = { version = "0.2", default-features = false }
pgp = "0.14"
sha1 = "0.10"
thiserror = "1"
z-base-32 = "0.1"

[dev-dependencies]
rand = "0.8"
