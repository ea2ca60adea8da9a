[package]
name = "u_scanner"
version = "0.1.0"
edition = "2021"
publish = false

[dependencies]
anyhow = "1"
byteorder = "=1.5.0"
hex = "=0.4.3"
ignore = "0.4"
lru = "=0.19.0"
memmap2 = "0.9"
notify = "=8.2.1"
parking_lot = "0.12"
rayon = "1"
regex = "=1.13.1"
rmp-serde = "1"
rusqlite = { version = "=0.41.1", features = ["bundled"] }
serde = { version = "1", features = ["derive"] }
serde_json = "1"
sha2 = "=0.10.9"
streaming-iterator = "0.1"
sysinfo = "=0.40.1"
tokio = { version = "1", features = ["full"] }
tracing = "0.1"
tracing-subscriber = "0.3"
tree-sitter = "0.26"
tree-sitter-c-sharp = "=0.23.5"
tree-sitter-json = "=0.24.8"
