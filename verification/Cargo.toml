[package]
name = "tagger"
version = "0.1.0"
edition = "2021"
publish = false

[dependencies]
dotenvy = "=0.15.7"
dptree = "=0.5.1"
log = "=0.4.34"
pretty_env_logger = "=0.5.0"
rusqlite = { version = "=0.40.2", features = ["bundled"] }
# teloxide-core depends on takecell. Its 0.1.2 asks for a newer compiler than
# the other dependencies do, so the version before it is held here.
takecell = "=0.1.1"
teloxide = { version = "=0.17.0", features = ["macros"] }
tokio = { version = "=1.54.1", features = ["rt-multi-thread", "macros"] }
