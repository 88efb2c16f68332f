[package]
name = "wand"
version = "0.1.0"
edition = "2021"
publish = false

[dependencies]
clap = { version = "4", features = ["derive"] }
color-eyre = "0.6"
colored = "2"
crossterm = "0.27"
data-encoding = "2"
dirs = "5"
handlebars = "4"
seahorse = "2"
serde = { version = "1", features = ["derive"] }
tungstenite = "0.20"
ureq = { version = "2", default-features = false, features = ["json"] }
url = "2"
which = "4"
