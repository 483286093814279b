[package]
name = "iced_inspector"
version = "0.1.0"
edition = "2021"
publish = false

[dependencies]
serde = { version = "=1.0.229", features = ["derive"] }
serde_json = "=1.0.154"
rustc-hash = "=2.1.3"
bytemuck = "=1.25.2"
iced_core = "=0.13.2"
iced_futures = "=0.13.2"
iced_widget = "=0.13.4"
