[package]
name = "imdb_search"
version = "0.1.0"
edition = "2021"
publish = false

[dependencies]
scraper = "*"
hyper = { version = "0.14", features = ["client", "http1", "tcp"] }
hyper-tls = "0.5"
urlencoding = "2"
