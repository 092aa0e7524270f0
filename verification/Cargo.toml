[package]
name = "moxie"
version = "0.1.0"
edition = "2021"
publish = false

[dependencies]
hashbrown = "=0.14.5"
syn = { version = "=2.0.119", features = ["full"] }
