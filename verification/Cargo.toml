[package]
name = "nec"
version = "0.1.0"
edition = "2021"
publish = false

[dependencies]
mailparse = "*"
toml = "0.5"
serde = { version = "1", features = ["derive"] }
directories = "*"
imap = "2"
native-tls = "0.2"
structopt = "0.3"
termion = "1"
