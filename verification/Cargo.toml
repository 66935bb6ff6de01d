[package]
name = "stash_ledger"
version = "0.1.0"
edition = "2021"
publish = false

[dependencies]
uuid = { version = "=1.29.0", features = ["v4"] }
time = { version = "=0.3.55", features = ["formatting"] }
anyhow = "=1.0.104"
sqlx = { version = "=0.7.4", default-features = false, features = ["runtime-tokio", "sqlite"] }
teloxide = { version = "=0.12.2", default-features = false, features = ["macros", "ctrlc_handler", "rustls"] }
tokio = { version = "=1.54.1", features = ["macros", "rt-multi-thread"] }
dotenvy = "=0.15.7"
pretty_env_logger = "=0.5.0"
# Not called from this crate. teloxide-core takes any takecell 0.1, and
# 0.1.2 asks for Rust 1.96; this line holds it at the release before.
takecell = "=0.1.1"
