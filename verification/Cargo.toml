[package]
name = "gongfu_guard"
version = "0.1.0"
edition = "2021"
publish = false

[dependencies]
pinyin = "=0.9.0"
teloxide = "=0.7.3"
tokio = { version = "=1.54.1", features = ["rt-multi-thread", "macros"] }
tokio-util = { version = "=0.6.10", features = ["codec"] }
log = "=0.4.34"
pretty_env_logger = "=0.4.0"
takecell = "=0.1.1"
