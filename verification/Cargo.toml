[package]
name = "rushdown_fenced_div"
version = "0.1.0"
edition = "2021"
publish = false

[dependencies]
rushdown = "0.12"
