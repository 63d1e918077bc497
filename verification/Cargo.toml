[package]
name = "sql_hummus"
version = "0.1.0"
edition = "2021"
publish = false

[dependencies]
sql-peas = "*"
sqlite = "*"
ulid = { version = "*", features = ["serde"] }
chrono = "*"
clap = { version = "4", features = ["derive"] }
serde = { version = "1", features = ["derive"] }
serde_json = "1"
camino = "1"
directories = "*"
thiserror = "*"
