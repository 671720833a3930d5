[package]
name = "rust_storage_bench"
version = "0.1.0"
edition = "2021"
publish = false

[dependencies]
rand = "0.8"
zipf = "7"
sled = "0.34.7"
fjall = "1.2.0"
persy = "1.5.0"
jammdb = "0.11.0"
redb = "2.1.1"
nebari = "0.5.5"
clap = { version = "4", features = ["derive"] }
serde = { version = "1", features = ["derive"] }
serde_json = "1"
log = "0.4"
env_logger = "0.11"
sysinfo = "0.30"
fs_extra = "1"
