[package]
name = "kbd_backlight"
version = "0.1.0"
edition = "2021"
publish = false

[dependencies]
chrono = "0.4"
clap = { version = "4", features = ["derive"] }
serde = { version = "1", features = ["derive"] }
tokio = { version = "1", features = ["io-util", "macros", "net", "rt", "signal", "time"] }
toml = "*"
wayrs-client = "*"
wayrs-protocols = { version = "*", features = ["ext-idle-notify-v1"] }
wayrs-utils = { version = "*", features = ["seats"] }
x11rb = { version = "*", features = ["screensaver"] }
zbus = "*"
