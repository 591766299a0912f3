[package]
name = "efbench_client"
version = "0.1.0"
edition = "2021"
publish = false

[dependencies]
anyhow = "1"
clap = { version = "4", features = ["derive"] }
crossterm = "*"
plotters = { version = "0.3", default-features = false, features = ["bitmap_backend", "bitmap_encoder", "line_series", "ttf"] }
ratatui = "*"
tokio = { version = "1", features = ["full"] }
tokio-stream = "0.1"
tonic = "*"
