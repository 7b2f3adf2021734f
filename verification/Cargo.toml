[package]
name = "pg_viewctl"
version = "0.1.0"
edition = "2021"
publish = false

[dependencies]
anyhow = "=1.0.104"
clap = { version = "=4.6.7", features = ["derive"] }
postgres = "=0.19.14"
pgrx = "=0.16.1"
