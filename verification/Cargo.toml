[package]
name = "stegos"
version = "0.1.0"
edition = "2021"
publish = false

[dependencies]
atty = "=0.2.14"
byteorder = "=1.5.0"
chrono = "=0.4.45"
clap = "=2.34.0"
cuckoofilter = "=0.5.0"
dirs = "=7.0.0"
humantime = "=2.4.0"
log = "=0.4.34"
rand = "=0.10.3"
rpassword = "=7.5.4"
rustyline = "*"
serde = { version = "=1.0.229", features = ["derive"] }
serde_json = "=1.0.154"
serde_yaml = "=0.9.34"
sha3 = "=0.10.9"
smallvec = "=1.16.4"
toml = "*"
