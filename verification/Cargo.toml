[package]
name = "remotedesk"
version = "0.1.0"
edition = "2021"
publish = false

[dependencies]
base64 = "0.22"
sha2 = "0.10"
image = "0.24"
serde = { version = "1", features = ["derive"] }
serde_json = "1"
local-ip-address = "*"
mac_address = "*"
rdev = "0.5"
scrap = "*"
openh264 = "*"

[dev-dependencies]
hex = "0.4"
