[package]
name = "fixtures"
version = "0.1.0"
edition = "2021"
publish = false

[dependencies]
glob = "0.3"
globset = "0.4"
globwalk = "0.9"
proc-macro2 = "1"
quote = "1"
syn = { version = "2", features = ["full"] }
