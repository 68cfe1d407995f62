[package]
name = "bad_extensions"
version = "0.1.0"
edition = "2021"
publish = false

[dependencies]
crossbeam-channel = "0.5"
futures = "0.3"
glib = "0.15"
gtk = "0.15"
infer = "0.7"
mime_guess = "2.0"
rayon = "1.5"
trash = "2.0"
