[package]
name = "lei"
version = "0.1.0"
edition = "2021"
publish = false

[dependencies]
iso_iec_7064 = "*"
