[package]
name = "sanvi"
version = "0.1.0"
edition = "2021"
publish = false

[dependencies]
actix-files = "*"
actix-web = { version = "*", features = ["rustls-0_23"] }
anyhow = "*"
atom_syndication = { version = "*", features = ["with-serde"] }
clap = { version = "*", features = ["derive"] }
crossbeam = "*"
directories = "*"
env_logger = "*"
futures = "*"
log = "*"
minijinja = { version = "*", features = ["loader"] }
quick_cache = "*"
regex = "*"
reqwest = "*"
rss = { version = "*", features = ["with-serde"] }
rustls = "*"
rustls-pemfile = "*"
tokio = { version = "*", features = ["full"] }
