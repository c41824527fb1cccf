[package]
name = "pairswitch"
version = "0.0.1"
edition = "2021"
publish = false

[dependencies]
clap = "=3.2.25"
crossterm = "=0.25.0"
cursive = { version = "=0.18.0", default-features = false, features = ["crossterm-backend"] }
cursive_table_view = "=0.14.0"
serde = { version = "=1.0.229", features = ["derive"] }
serde_json = "=1.0.154"
thiserror = "=1.0.69"
tui = "=0.19.0"
