[package]
name = "tg_opossum"
version = "0.1.0"
edition = "2021"
publish = false

[dependencies]
rand = "=0.8.8"
teloxide = { version = "=0.12.2", default-features = false, features = ["macros", "ctrlc_handler", "rustls"] }
takecell = "=0.1.1"
tokio = { version = "=1.54.1", features = ["rt-multi-thread", "macros"] }
dptree = "=0.3.0"
serde = { version = "1", features = ["derive"] }
toml = "=0.8.23"
log = "0.4"
pretty_env_logger = "=0.5.0"
diesel = { version = "=2.3.14", features = ["postgres"] }
