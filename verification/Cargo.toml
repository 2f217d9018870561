[package]
name = "intent_router"
version = "0.1.0"
edition = "2021"
publish = false

[dependencies]
regex = "1"
