[package]
name = "mula"
version = "0.1.0"
edition = "2021"
publish = false

[dependencies]
flate2 = "*"
ratatui = "*"
toml = "*"
chrono = "*"
image = { version = "*", default-features = false, features = ["png", "jpeg"] }
zip = { version = "*", default-features = false, features = ["deflate"] }
tar = "*"
rayon = "*"
rustix = { version = "*", features = ["termios", "stdio"] }
libc = "*"
thiserror = "*"
tracing = "*"
tracing-appender = "*"
tracing-subscriber = { version = "*", features = ["env-filter"] }
