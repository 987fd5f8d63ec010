[package]
name = "helixlauncher_meta"
version = "0.1.0"
edition = "2021"
publish = false

[dependencies]
maven-version = "*"
sha1 = "*"
data-encoding = "*"
serde = { version = "*", features = ["derive"] }
serde_json = "*"
serde_with = "*"
chrono = { version = "*", features = ["serde"] }
anyhow = "*"
indexmap = { version = "*", features = ["serde"] }
tokio = { version = "*", features = ["macros", "rt-multi-thread"] }
reqwest = { version = "*", default-features = false, features = ["json"] }
futures = "*"
zip = { version = "*", default-features = false }
