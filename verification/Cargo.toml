[package]
name = "linode"
version = "0.1.0"
edition = "2021"
publish = false

[dependencies]
rand = "0.8"
svix-ksuid = "*"
tls-helpers = "*"
serde = { version = "1", features = ["derive"] }
reqwest = { version = "*", default-features = false, features = ["json"] }
tokio = { version = "1", features = ["macros", "rt-multi-thread"] }
structopt = "0.3"
tracing = "0.1"
tracing-subscriber = { version = "0.3", features = ["env-filter", "fmt"] }
