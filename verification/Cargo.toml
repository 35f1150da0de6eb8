[package]
name = "open_english"
version = "0.1.0"
edition = "2021"
publish = false

[dependencies]
anyhow = "=1.0.104"
base64 = "=0.22.1"
hmac = "=0.12.1"
sha1 = "=0.10.7"
ring = "=0.17.14"
qrcode = { version = "=0.14.1", default-features = false, features = ["svg"] }
serde = { version = "=1.0.229", features = ["derive"] }
serde_json = "=1.0.154"
tokio = { version = "=1.54.1", features = ["rt-multi-thread", "macros", "process", "time", "sync", "net", "io-util", "fs"] }
reqwest = { version = "=0.12.28", default-features = false, features = ["json", "rustls-tls"] }
lettre = { version = "=0.11.23", default-features = false, features = ["builder", "smtp-transport", "tokio1", "tokio1-rustls-tls"] }
rusqlite = { version = "=0.31.0", features = ["bundled"] }
russh = "=0.65.1"
wasmtime = { version = "=21.0.2", default-features = false, features = ["cranelift", "wat", "runtime"] }
tokio-postgres = "0.7"
tokio-postgres-rustls = "*"
rustls = { version = "=0.23.46", features = ["ring"] }
rustls-native-certs = "*"
webpki-roots = "*"
