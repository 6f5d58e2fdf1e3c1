[package]
name = "caustic"
version = "0.1.0"
edition = "2021"
publish = false

[dependencies]
sha2 = "0.10"
oci-client = { version = "*", default-features = false, features = ["rustls-tls"] }
sigstore = { version = "*", default-features = false, features = ["cosign-rustls-tls"] }
anyhow = "1"
clap = { version = "4", features = ["derive"] }
serde = { version = "1", features = ["derive"] }
serde_json = "1"
tokio = { version = "1", features = ["full"] }
futures-util = "0.3"
tracing = "0.1"
tracing-subscriber = { version = "0.3", features = ["env-filter"] }
which = "*"
rustix = { version = "*", features = ["process"] }
reqwest = { version = "0.12", default-features = false, features = ["json", "stream", "rustls-tls"] }
directories = "*"
plist = "1"
