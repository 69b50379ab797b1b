[package]
name = "tim"
version = "0.1.0"
edition = "2021"
publish = false

[dependencies]
fltk = "1"
rodio = "0.17"
webbrowser = "0.8"
cocoa = "0.25"
objc = "0.2"
