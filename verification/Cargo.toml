[package]
name = "apod_wallpaper"
version = "0.1.0"
edition = "2021"
publish = false

[dependencies]
chrono = "0.4"
regex = "1"
ureq = "2"
wallpaper = "*"
