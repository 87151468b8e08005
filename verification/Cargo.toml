[package]
name = "kaeo"
version = "0.1.0"
edition = "2021"
publish = false

[dependencies]
chrono = "0.4"
clap = { version = "4", features = ["derive"] }
crossterm = "*"
ctrlc = "3"
gethostname = "*"
notify-debouncer-full = "*"
shlex = "1"
