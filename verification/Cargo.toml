[package]
name = "joist_mailer"
version = "0.1.0"
edition = "2021"
publish = false

[dependencies]
email = "=0.0.21"
lettre = "0.6"
rustc-serialize = "=0.3.25"
time = "=0.1.45"
