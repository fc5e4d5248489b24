[package]
name = "printers"
version = "0.1.0"
edition = "2021"
publish = false

[dependencies]
url = "2"
percent-encoding = "2"
i18n-embed = { version = "*", features = ["fluent-system", "desktop-requester"] }
i18n-embed-fl = "*"
rust-embed = "*"
tokio = { version = "1", features = ["rt", "rt-multi-thread", "macros", "sync", "time"] }
tracing = "0.1"
futures = "0.3"
notify-rust = "4"
cups_rs = "*"
slab = "0.4"
