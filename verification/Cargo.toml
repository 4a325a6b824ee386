[package]
name = "sauna_monitor"
version = "0.1.0"
edition = "2021"
publish = false

[dependencies]
rppal = "*"
tokio = { version = "*", features = ["macros", "rt-multi-thread", "time"] }
futures = "*"
chrono = "*"
slack-morphism = { version = "*", features = ["hyper"] }
rsb_derive = "*"
