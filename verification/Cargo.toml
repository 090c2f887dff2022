[package]
name = "grust"
version = "0.1.0"
edition = "2021"
publish = false

[dependencies]
libc = "0.2"
gtypes = "*"
glib-2-0-sys = "*"
gobject-2-0-sys = "*"
