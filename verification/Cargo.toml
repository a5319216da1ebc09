[package]
name = "vchat"
version = "0.1.0"
edition = "2021"
publish = false

[dependencies]
sha2 = "=0.10.9"
sha3 = "=0.10.9"
sha1 = "=0.10.7"
hmac = "=0.12.1"
aes = "=0.8.4"
ctr = "=0.9.2"
hkdf = "=0.12.4"
aes-gcm = "=0.10.3"
x25519-dalek = { version = "=2.0.1", features = ["static_secrets"] }
ed25519-dalek = { version = "=2.2.0", features = ["rand_core"] }
rand = "=0.8.8"
hex = "=0.4.3"
base64 = "=0.22.1"
url = "=2.5.8"
uuid = { version = "=1.29.0", features = ["v4"] }
serde = { version = "=1.0.229", features = ["derive"] }
serde_json = "=1.0.154"
bincode = "=1.3.3"
zeroize = "=1.9.1"
snow = { version = "=0.10.0", features = ["risky-raw-split"] }
mime_guess = "=2.0.5"
qrcode = { version = "=0.14.1", default-features = false, features = ["svg"] }
