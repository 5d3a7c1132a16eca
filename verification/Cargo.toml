[package]
name = "shortform"
version = "0.1.0"
edition = "2021"
publish = false

[dependencies]
chrono = { version = "=0.4.45", features = ["serde"] }
hdk = "=0.7.1"
holo_hash = "=0.7.1"
holochain_serialized_bytes = "=0.0.57"
serde = { version = "=1.0.228", features = ["derive"] }
serde_json = { version = "=1.0.154", features = ["raw_value"] }
thiserror = "=1.0.69"
