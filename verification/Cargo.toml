[package]
name = "capedit"
version = "0.1.0"
edition = "2021"
publish = false

[dependencies]
image = "=0.24.9"
imageproc = "=0.23.1"
teloxide = { version = "=0.12.2", default-features = false, features = ["macros", "rustls", "ctrlc_handler"] }
tokio = { version = "=1.53.2", features = ["macros", "rt-multi-thread", "process", "fs", "io-util"] }
sqlx = { version = "=0.7.4", default-features = false, features = ["runtime-tokio-rustls", "sqlite", "macros"] }
reqwest = { version = "=0.11.27", default-features = false }
tempfile = "=3.27.0"
dotenv = "=0.15.0"
log = "=0.4.34"
pretty_env_logger = "=0.5.0"
dptree = "=0.3.0"
takecell = "=0.1.1"
