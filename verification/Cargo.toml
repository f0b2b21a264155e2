[package]
name = "greentic_deployer"
version = "0.1.0"
edition = "2021"
publish = false

[dependencies]
serde = { version = "*", features = ["derive"] }
serde_json = "*"
serde_yaml_bw = "*"
sha2 = "*"
base64 = "*"
semver = "*"
ipnet = "*"
tar = "*"
reqwest = { version = "*", default-features = false, features = ["blocking", "rustls-tls"] }
greentic-types = "*"
