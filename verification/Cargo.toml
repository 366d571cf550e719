[package]
name = "wsicons"
version = "0.1.0"
edition = "2021"
publish = false

[dependencies]
regex = "=1.13.1"
bspc-rs = "=0.1.1"
notify = "=8.2.0"
xcb = "=1.7.1"
