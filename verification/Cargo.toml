[package]
name = "diffmetrik"
version = "0.1.0"
edition = "2021"
publish = false

[dependencies]
failure = "0.1"
fs2 = "0.4"
human_format = "1"
libc = "0.2"
serde = { version = "1", features = ["derive"] }
serde_json = "1"
snafu = "*"
structopt = "0.3"
sysctl = "0.4"
