[package]
name = "potatomod"
version = "0.1.0"
edition = "2021"
publish = false

[dependencies]
anyhow = "*"
async-stream = "*"
bytes = "*"
chrono = { version = "*", default-features = false, features = ["clock", "std"] }
dotenv = "*"
futures = "*"
image = { version = "*", default-features = false, features = ["bmp", "gif", "jpeg", "png", "webp"] }
levenshtein = "=1.0.5"
log = "*"
num_cpus = "*"
poise = "*"
pretty_env_logger = "*"
rayon = "*"
reqwest = { version = "*", default-features = false, features = ["rustls-tls"] }
serenity = "*"
tokio = { version = "*", features = ["macros", "rt-multi-thread", "sync", "time"] }
