[package]
name = "pandata"
version = "0.1.0"
edition = "2021"
publish = false

[dependencies]
anyhow = "1"
clap = { version = "4", features = ["derive"] }
polars = { version = "=0.44.2", features = ["lazy", "csv", "json", "parquet", "avro", "streaming"] }
polars-utils = "=0.44.2"
