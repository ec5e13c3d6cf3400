[package]
name = "timewarp"
version = "0.1.0"
edition = "2021"
publish = false

[dependencies]
chrono = "=0.4.45"
clap = { version = "=4.6.7", features = ["derive"] }

[dev-dependencies]
duration-str = { version = "=0.21.0", default-features = false, features = ["chrono"] }
