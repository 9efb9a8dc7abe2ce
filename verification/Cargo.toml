[package]
name = "donation_report"
version = "0.1.0"
edition = "2021"
publish = false

[dependencies]
chrono = "0.4"
chrono-tz = "*"
clap = { version = "4", features = ["derive", "env"] }
parse_link_header = "*"
serde = { version = "1", features = ["derive"] }
ureq = { version = "2", features = ["json"] }
