[package]
name = "simple_future_playground"
version = "0.1.0"
edition = "2021"

[dependencies]
futures = "0.3"
