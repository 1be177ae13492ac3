[package]
name = "satyanaash"
version = "0.1.0"
edition = "2021"
publish = false

[dependencies]
bharat-cafe = "=0.2.2"
calamine = "=0.37.0"
colored = "=3.1.1"
deno_core = "*"
getopts = "=0.2.24"
indicatif = "=0.18.6"
mime_guess = "=2.0.5"
reqwest = { version = "=0.12.28", default-features = false, features = ["blocking", "json", "multipart", "rustls-tls"] }
serde = { version = "=1.0.229", features = ["derive"] }
serde_json = "=1.0.154"
serde_yaml = "=0.9.34"
uuid = { version = "=1.29.0", features = ["v4"] }
