[package]
name = "qubit_datatype"
version = "0.12.0"
edition = "2021"
publish = false

[dependencies]
serde = { version = "1", features = ["derive"] }
serde_json = "1"
thiserror = "2"
url = "2"
chrono = { version = "0.4", default-features = false, features = ["std"] }
num-bigint = "0.4"
num-traits = "0.2"
bigdecimal = "0.4"
