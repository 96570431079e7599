[package]
name = "gitway"
version = "1.0.0"
edition = "2021"
publish = false

[dependencies]
anvil-ssh = "=1.2.0"
dirs = "=7.0.0"
futures-lite = "=2.6.1"
log = "=0.4.35"
oo7 = { version = "=0.6.0", default-features = false, features = ["tokio", "native_crypto"] }
rpassword = "=7.5.4"
security-framework = "=3.7.0"
serde_json = "=1.0.154"
ssh-key = { version = "=0.6.7", features = ["encryption", "ed25519", "p256", "p384", "rsa"] }
tokio = { version = "=1.54.1", features = ["rt", "time"] }
windows = { version = "0.58", features = ["Foundation", "Foundation_Collections", "Security_Credentials", "Security_Credentials_UI"] }
zbus = { version = "=5.19.0", default-features = false, features = ["tokio"] }
zeroize = "=1.9.1"
