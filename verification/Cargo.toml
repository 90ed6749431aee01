[package]
name = "tevir"
version = "0.1.0"
edition = "2021"
publish = false

[dependencies]
base64 = "=0.22.1"
bytes = "=1.12.1"
keycode = "=1.0.0"
sha2 = "=0.10.9"
input-event = "=0.4.0"
postcard = { version = "=1.1.3", default-features = false, features = ["alloc"] }
serde = { version = "1", features = ["derive"] }
serde_json = "=1.0.154"
thiserror = "2"
tokio = { version = "1", features = ["rt", "rt-multi-thread", "macros", "net", "sync", "time", "io-util"] }
toml = "0.9"
tracing = "0.1"
tracing-subscriber = { version = "0.3", features = ["env-filter"] }
tracing-appender = "0.2"
clap = { version = "4", features = ["derive"] }
directories = "6"
quinn = { version = "0.11", default-features = false, features = ["runtime-tokio", "rustls-ring"] }
rustls = { version = "0.23", default-features = false, features = ["ring", "std", "tls12"] }
rustls-pki-types = "1"
rcgen = { version = "0.14", default-features = false, features = ["crypto", "ring", "pem"] }
rand = "0.9"
mdns-sd = { version = "=0.21.7", default-features = false }
futures-util = { version = "0.3", default-features = false, features = ["std"] }
ashpd = { version = "=0.13.13", default-features = false, features = ["tokio", "remote_desktop", "input_capture", "clipboard", "screencast"] }
reis = { version = "0.5", features = ["tokio"] }
egui = { version = "0.34", default-features = false }

[dev-dependencies]
tempfile = "3"
