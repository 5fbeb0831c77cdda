[package]
name = "workspace"
version = "0.1.0"
edition = "2021"
publish = false

[dependencies]
base64 = "0.13"
urlencoding = "2"
serde = { version = "1", features = ["derive"] }
serde_json = "1"
serde_yaml = "0.9"
clap = { version = "4", features = ["derive"] }
tokio = { version = "1", features = ["macros", "rt-multi-thread"] }
chrono = { version = "0.4", default-features = false, features = ["clock"] }
directories = "5"
duct = "0.13"
inquire = "0.7"
reqwest = { version = "0.12", default-features = false, features = ["json"] }
tracing = "0.1"
tracing-subscriber = { version = "0.3", features = ["env-filter"] }
miette = "7"
thiserror = "1"
schemars = "0.8"
async-trait = "0.1"
include_dir = "0.7"
libc = "0.2"
