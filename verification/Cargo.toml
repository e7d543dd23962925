[package]
name = "i3nator"
version = "0.1.0"
edition = "2021"
publish = false

[dependencies]
toml = "*"
i3ipc = "*"
xdg = "*"
tempfile = "*"
wait-timeout = "*"
getch = "*"
clap = { version = "*", features = ["derive"] }
clap_complete = "*"
