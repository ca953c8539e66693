[package]
name = "core_storage"
version = "0.1.0"
edition = "2021"
publish = false

[dependencies]
crc32c = "=0.6.9"
uuid = { version = "=1.29.0", features = ["v7"] }
getrandom = "=0.4.3"
chrono = "=0.4.45"
mime_guess = "=2.0.5"
libc = "=0.2.191"
tokio = { version = "=1.54.1", features = ["rt-multi-thread", "net", "io-util", "sync", "time", "macros", "fs", "signal"] }
async-trait = "=0.1.92"
rusqlite = { version = "=0.40.2", features = ["bundled"] }
r2d2 = "=0.8.10"
r2d2_sqlite = "=0.35.0"
sysinfo = "=0.40.1"
