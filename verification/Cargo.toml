[package]
name = "dbmigrator"
version = "0.1.0"
edition = "2021"
publish = false

[dependencies]
sha2 = "0.10"
regex = "1"
version-compare = "0.2"
time = "0.3"
thiserror = "1"
walkdir = "2"
clap = { version = "4", features = ["derive"] }
tokio = { version = "1", features = ["rt-multi-thread", "macros"] }
tokio-postgres = { version = "0.7", features = ["with-time-0_3"] }
async-trait = "0.1"
comfy-table = "7"
console = "0.15"
indicatif = "0.17"
human-panic = "2"
handlebars = "6"
pgarchive = "*"
serde = { version = "1", features = ["derive"] }
