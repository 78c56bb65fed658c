[package]
name = "identity_sync"
version = "0.1.0"
edition = "2021"
publish = false

[dependencies]
machineid-rs = "=1.2.4"
md5 = "=0.7.0"
reqwest = { version = "=0.11.27", default-features = false, features = ["blocking"] }
dotenvy = "=0.15.7"
