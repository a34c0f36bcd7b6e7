[package]
name = "gitbutler-workspace"
version = "0.1.0"
edition = "2021"
publish = false

[dependencies]
anyhow = "=1.0.104"
git2 = { version = "=0.20.4", default-features = false }
gix = { version = "=0.83.0", features = ["merge"] }
kstring = "=2.0.2"
rlimit = "=0.11.0"
tokio = { version = "=1.54.1", features = ["macros", "rt-multi-thread"] }
tracing = "=0.1.44"

[dev-dependencies]
tempfile = "3"
