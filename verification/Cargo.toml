[package]
name = "sunrise-brightness"
version = "0.1.0"
edition = "2021"
publish = false

[dependencies]
anyhow = "1"
auto-launch = "=0.6.0"
brightness = "=0.8.0"
chrono = { version = "=0.4.45", default-features = false, features = ["clock", "std"] }
directories = "=6.0.0"
eframe = { version = "=0.37.0", default-features = false, features = ["default_fonts", "glow", "x11"] }
reqwest = { version = "=0.12.28", default-features = false, features = ["blocking", "json"] }
serde = { version = "1", features = ["derive"] }
solar-positioning = "0.5"
toml = "=0.9.12"
x11rb = { version = "=0.13.2", features = ["randr"] }
