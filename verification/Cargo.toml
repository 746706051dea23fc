[package]
name = "reyn_studio"
version = "0.4.0"
edition = "2021"
publish = false

[dependencies]
eframe = { version = "=0.34.3", default-features = false, features = ["glow", "x11"] }
egui = { version = "=0.34.3", default-features = false }
keyring = { version = "=3.6.3", default-features = false }
security-framework = "3"
serde = { version = "1", features = ["derive"] }
serde_json = "=1.0.154"
truck-meshalgo = { version = "=0.4.0", default-features = false, features = ["filters", "tessellation"] }
truck-stepio = "=0.3.0"
ureq = { version = "=3.5.1", default-features = false, features = ["rustls", "json"] }
windows-sys = { version = "0.61", features = ["Win32_Foundation", "Win32_Security_Credentials"] }
zeroize = "=1.9.1"
