[package]
name = "ratings_scraper"
version = "0.1.0"
edition = "2021"
publish = false

[dependencies]
anyhow = "*"
chaser-oxide = "*"
clap = { version = "*", features = ["derive"] }
fancy-log = "*"
fastrand = "*"
futures = "*"
select = "*"
tokio = { version = "*", features = ["macros", "rt-multi-thread"] }
