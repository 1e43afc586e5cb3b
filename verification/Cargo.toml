[package]
name = "browser_panel"
version = "0.1.0"
edition = "2021"
publish = false

[dependencies]
urlencoding = "2"
cocoa = "*"
objc = "0.2"
pathfinder_geometry = "*"
log = "0.4"
