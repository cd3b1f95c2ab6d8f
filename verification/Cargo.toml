[package]
name = "refraction"
version = "0.1.0"
edition = "2021"
publish = false

[dependencies]
chrono = "=0.4.45"
md5 = "=0.7.0"
quoted_printable = "=0.5.2"
mail-parser = "=0.9.4"
readable-readability = "=0.4.0"
atom_syndication = "=0.12.10"
imap = "=2.4.1"
imap-proto = "=0.10.2"
native-tls = "0.2"
serde = { version = "1", features = ["derive"] }
toml = "*"
clap = { version = "4", features = ["derive"] }
tokio = { version = "1", features = ["macros", "rt-multi-thread"] }
futures = "0.3"
async-native-tls = "*"
anyhow = "1"
melib = "=0.7.2"
