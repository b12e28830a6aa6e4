[package]
name = "toolproof"
version = "0.1.0"
edition = "2021"
publish = false

[dependencies]
portpicker = "*"
strip-ansi-escapes = "*"
semver = "*"
similar-string = "*"
serde = { version = "*", features = ["derive"] }
serde_json = "*"
serde_yaml = "*"
tokio = { version = "*", features = ["full"] }
actix-web = "*"
actix-files = "*"
chromiumoxide = { version = "*", default-features = false, features = ["tokio-runtime"] }
futures = "*"
clap = { version = "*", features = ["cargo"] }
wax = "*"
tempfile = "*"
toml = "*"
path-slash = "*"
pagebrowse = "*"
