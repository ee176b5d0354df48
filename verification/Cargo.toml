[package]
name = "microtak-admin-cli"
version = "0.1.0"
edition = "2021"
publish = false

[dependencies]
anyhow = "1"
clap = { version = "4", features = ["derive", "env"] }
genpdf = { version = "0.2", features = ["images"] }
image = { version = "0.23", default-features = false }
qrcode = { version = "0.14", default-features = false }
rcgen = { version = "0.13", default-features = false, features = ["ring", "pem"] }
reqwest = { version = "0.12", default-features = false, features = ["json", "rustls-tls"] }
serde = { version = "1", features = ["derive"] }
serde_json = "1"
time = { version = "0.3", features = ["formatting"] }
tokio = { version = "1", features = ["macros", "rt-multi-thread"] }
