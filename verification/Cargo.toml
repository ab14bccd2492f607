[package]
name = "c2pa-api"
version = "0.2.1"
edition = "2021"
rust-version = "1.95"
publish = false

[dependencies]
actix-web = { version = "4", default-features = false, features = ["macros"] }
bytes = "=1.12.1"
c2pa = { version = "0.77", default-features = false, features = ["file_io", "openssl"] }
clap = "4"
dotenv = "=0.15.0"
image = { version = "=0.24.9", default-features = false }
sha256 = { version = "=1.6.0", default-features = false }
