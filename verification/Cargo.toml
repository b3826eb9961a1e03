[package]
name = "dbt_trace"
version = "0.1.0"
edition = "2021"
publish = false

[dependencies]
regex = "1"
console = "*"
uuid = { version = "1", features = ["v7"] }
tracing = "0.1"
ignore = "*"
tempfile = "3"
libc = "0.2"
dotenvy = "*"
winapi = { version = "0.3", features = ["processenv", "winbase"] }
