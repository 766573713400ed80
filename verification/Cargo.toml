[package]
name = "kakuyomu_dump"
version = "0.1.0"
edition = "2021"
publish = false

[dependencies]
scraper = "*"
ureq = "2"
arg = "*"
