[package]
name = "line_view"
version = "0.1.0"
edition = "2021"
publish = false

[dependencies]
rustc-hash = "2"
clap = { version = "4", features = ["derive"] }
clap_complete = "4"
color-eyre = "0.6"
derive_more = { version = "2", features = ["from", "is_variant", "deref", "deref_mut"] }
env_logger = "0.11"
home = "0.5"
log = "0.4"
mimalloc = "0.1"
patharg = "0.4"
tap = "1"
thiserror = "2"
