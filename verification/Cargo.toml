[package]
name = "data-importer"
version = "0.1.0"
edition = "2021"
publish = false

[dependencies]
anyhow = "1"
async-channel = "2"
chrono = "0.4"
clap = { version = "4", features = ["derive", "env"] }
deadpool-postgres = "*"
encoding = "0.2"
reqwest = { version = "*", features = ["json"] }
sea-query = { version = "*", features = ["with-chrono", "with-uuid", "postgres-array"] }
sea-query-postgres = { version = "*", features = ["with-chrono", "with-uuid", "postgres-array"] }
serde = { version = "1", features = ["derive"] }
serde_json = "1"
tokio = { version = "1", features = ["full"] }
tokio-postgres = { version = "*", features = ["with-chrono-0_4", "with-uuid-1"] }
uuid = { version = "1", features = ["v4"] }
zip-extract = "*"
