[package]
name = "cosmic-ext-applet-now-playing"
version = "0.1.0"
edition = "2021"
publish = false

[dependencies]
url = "2"
imagesize = "0.13"
ureq = "2"
mpris = "2"
