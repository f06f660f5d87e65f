[package]
name = "rss_watch"
version = "0.1.0"
edition = "2021"
publish = false

[dependencies]
chrono = { version = "=0.4.45", default-features = false, features = ["std"] }
rss = { version = "=2.1.2", default-features = false }
dotenvy = "=0.15.7"
envy = "=0.4.2"
futures = "=0.3.34"
reqwest = "=0.12.28"
serde = { version = "=1.0.229", features = ["derive"] }
tokio = { version = "=1.54.1", features = ["macros", "rt-multi-thread"] }

[dev-dependencies]
quick-xml = { version = "=0.41.0", features = ["encoding"] }
