[package]
name = "staticfile"
version = "0.1.0"
edition = "2021"
publish = false

[dependencies]
percent-encoding = "=2.3.2"
httpdate = "=1.0.3"
http-range = "=0.1.5"
mime_guess = "=2.0.5"
rand = "=0.9.5"
http = "=1.5.0"
hyper = { version = "=1.11.1", features = ["full"] }
tokio = { version = "=1.53.2", features = ["fs", "rt", "rt-multi-thread", "io-util"] }
futures-util = "=0.3.34"
