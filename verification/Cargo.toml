[package]
name = "pdf_date"
version = "0.1.0"
edition = "2021"
publish = false

[dependencies]
chrono = "0.4"
jiff = "0.2"
time = { version = "0.3", features = ["formatting", "parsing", "macros"] }
