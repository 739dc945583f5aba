[package]
name = "elliptic_curves"
version = "0.1.0"
edition = "2021"
publish = false

[dependencies]
elliptic-curve = { version = "0.13", features = ["arithmetic"] }
k256 = "0.13"
rand = "0.8"
sha2 = "0.10"
