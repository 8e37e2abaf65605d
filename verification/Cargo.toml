[package]
name = "esdb_admin"
version = "0.1.0"
edition = "2021"
publish = false

[dependencies]
chrono = "0.4"
crossterm = "0.25"
eventstore = "*"
eventstore-extras = "*"
futures = "0.3"
itertools = "0.10"
log = "0.4"
log4rs = "1"
serde = { version = "1", features = ["derive"] }
serde_json = "1"
structopt = "0.3"
tokio = { version = "1", features = ["rt-multi-thread", "sync"] }
tui = "0.19"
uuid = "1"
