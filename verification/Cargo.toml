[package]
name = "openai_sdk_codegen"
version = "0.1.0"
edition = "2021"
publish = false

[dependencies]
bytes = "1"
chrono = { version = "0.4", features = ["serde"] }
convert_case = "*"
derive_more = { version = "2", features = ["from", "into", "display"] }
eventsource-stream = "0.2"
futures = "0.3"
openapiv3 = "2"
paste = "1"
pin-project = "1"
proc-macro2 = "1"
quote = "1"
reqwest = { version = "0.12", default-features = false, features = ["json", "stream"] }
secrecy = "0.10"
serde = { version = "1", features = ["derive"] }
serde-bool = "*"
serde_json = "1"
serde_with = { version = "3", features = ["chrono_0_4"] }
serde_yaml = "0.9"
snafu = "0.8"
syn = { version = "2", features = ["full"] }
url = "2"
