[package]
name = "khushu"
version = "0.1.0"
edition = "2021"
publish = false

[dependencies]
gettext-rs = { version = "=0.7.7", features = ["gettext-system"] }
hijri_date = "=0.5.1"
urlencoding = "=2.1.3"
chrono = "=0.4.45"
serde = { version = "=1.0.229", features = ["derive"] }
serde_json = "=1.0.154"
log = "=0.4.35"
gtk4 = "=0.11.5"
libadwaita = "=0.9.2"
tokio = { version = "=1.54.1", features = ["rt-multi-thread", "macros", "time"] }
reqwest = { version = "=0.13.5", features = ["json"] }
futures-util = "=0.3.34"
ashpd = "=0.13.13"
zbus = "=5.19.0"
ksni = "=0.3.7"
rodio = "=0.23.0"
