[package]
name = "idkspot"
version = "0.1.0"
edition = "2021"
publish = false

[dependencies]
regex = "1"
gtk4 = "0.7"
libadwaita = "0.5"
ksni = "0.2"
