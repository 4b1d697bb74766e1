[package]
name = "mukae"
version = "0.1.0"
edition = "2021"
publish = false

[dependencies]
egaku = "=0.1.22"
egaku-term = "=0.3.21"
kanshou = "=0.1.11"
libc = "0.2"
pwhash = "=1.0.0"
rmcp = { version = "=3.8.0", features = ["transport-io"] }
serde = { version = "1", features = ["derive"] }
serde_json = "1"
shikumi = "=0.1.1084"
tatara-lisp = "=0.3.64"
yescrypt = "=0.1.0"
zbus = "=5.19.0"
zeroize = "=1.9.1"
zvariant = "=5.15.1"
