[package]
name = "market_ingest"
version = "0.1.0"
edition = "2021"
publish = false

[dependencies]
chrono = "*"
clap = { version = "*", features = ["derive"] }
csv = "*"
fern = "*"
indicatif = "*"
log = "*"
polygon_io = "*"
ratelimit = "*"
serde = { version = "*", features = ["derive"] }
threadpool = "*"
time = { version = "*", features = ["macros", "formatting", "parsing", "local-offset"] }
zdb = "*"
zstd = "*"
