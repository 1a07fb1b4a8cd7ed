[package]
name = "backlight"
version = "0.1.0"
edition = "2021"
publish = false

[dependencies]
launchpad = "=0.1.1"
portmidi = "=0.2.4"
scrap = "=0.5.0"
structopt = "=0.3.26"
