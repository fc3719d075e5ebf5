[package]
name = "image_ingest"
version = "0.1.0"
edition = "2021"
publish = false

[dependencies]
actix-files = "0.5"
actix-multipart = "0.3"
actix-rt = "1"
actix-web = "3"
env_logger = "0.7"
futures = "0.3"
image = "=0.23.14"
rand = "=0.7.3"
serde = "1"
serde_derive = "1"
