[package]
name = "apollo_router"
version = "1.10.0"
edition = "2021"
publish = false

[dependencies]
apollo-compiler = "0.7"
bytes = "1"
flate2 = "1.0"
futures = "0.3"
http = "0.2"
opentelemetry = { version = "0.19", features = ["rt-tokio"] }
prost = "0.11"
prost-types = "0.11"
reqwest = { version = "0.11", default-features = false }
serde = { version = "1", features = ["derive"] }
serde_json = "1"
serde_json_bytes = "0.2"
sys-info = "0.9"
thiserror = "1"
tokio = { version = "1", features = ["macros", "rt", "rt-multi-thread", "time", "sync"] }
tonic = { version = "0.8", default-features = false, features = ["transport", "codegen", "prost"] }
tower = "0.4"
tracing = "0.1"
uname = "0.1"
url = "2"
