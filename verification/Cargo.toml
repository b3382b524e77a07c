[package]
name = "tttocea608"
version = "0.1.0"
edition = "2021"
publish = false

[dependencies]
atomic_refcell = "0.1"
glib = "0.9"
gstreamer = "0.15"
gstreamer-sys = "0.8"
lazy_static = "1.4"
