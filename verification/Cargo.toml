[package]
name = "markup_swift"
version = "0.1.0"
edition = "2021"
publish = false

[dependencies]
pulldown-cmark = "=0.13.6"
syntect = { version = "=5.3.0", default-features = false, features = ["default-fancy"] }
eframe = { version = "=0.37.0", default-features = false, features = ["default_fonts", "glow", "x11"] }
rfd = { version = "=0.17.2", default-features = false, features = ["xdg-portal"] }
