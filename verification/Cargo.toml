[package]
name = "cyphr"
version = "0.1.0"
edition = "2021"
publish = false

[dependencies]
neo4rs = "0.8"
chrono = "0.4"
bytes = "1"
futures = "0.3"
thiserror = "1"
