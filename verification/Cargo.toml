[package]
name = "telegram_fuse"
version = "0.1.0"
edition = "2021"
publish = false

[dependencies]
anyhow = "=1.0.104"
bytes = "=1.12.1"
clap = { version = "=4.6.7", features = ["derive"] }
env_logger = "=0.11.11"
fuser = { version = "0.14", default-features = false }
grammers-client = "=0.10.0"
grammers-session = "=0.10.0"
libc = "=0.2.191"
log = "=0.4.34"
lru = "=0.19.0"
sd-notify = "=0.5.0"
sqlx = { version = "=0.9.0", default-features = false, features = ["sqlite", "runtime-tokio"] }
static_assertions = "=1.1.0"
thiserror = "=1.0.69"
tokio = { version = "=1.54.1", features = ["full"] }
