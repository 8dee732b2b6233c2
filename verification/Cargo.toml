[package]
name = "task_streamer"
version = "0.1.0"
edition = "2021"
publish = false

[dependencies]
uuid = { version = "0.8", features = ["v4"] }
shlex = "1"
serde = { version = "1", features = ["derive"] }
log = "0.4"
env_logger = "0.8"
clap = "2"
config = "0.10"
dirs = "3"
actix = "0.10"
actix-web = { version = "3", default-features = false }
actix-web-actors = "3"
actix-cors = "0.5"
actix-web-httpauth = "0.5"
reqwest = { version = "0.10", default-features = false, features = ["json"] }
task-hookrs = "*"
