[package]
name = "fuiz"
version = "0.1.0"
edition = "2021"
publish = false

[dependencies]
uuid = { version = "1", features = ["v4"] }
fastrand = "2"
rustrict = "*"
petname = "*"
pluralizer = "*"
heck = "0.5"
serde = { version = "1", features = ["derive"] }
serde_json = "1"
actix-web = { version = "4", default-features = false, features = ["macros"] }
actix-ws = "*"
futures-util = "0.3"
bytes = "1"
web-time = "1"
dashmap = "6"
