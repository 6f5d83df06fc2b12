[package]
name = "mssql_client"
version = "0.1.0"
edition = "2021"
publish = false

[dependencies]
regex = "1"
encoding_rs = "0.8"
chrono = { version = "0.4", default-features = false, features = ["std"] }
rust_decimal = "1"
uuid = "1"
bytes = "1"
tokio = { version = "1", features = ["net", "time", "rt", "macros"] }
once_cell = "1"
tracing = "0.1"
