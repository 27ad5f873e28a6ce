[package]
name = "graphql_core"
version = "0.1.0"
edition = "2021"
publish = false

[dependencies]
http = "0.2"
spin = "0.9"
fnv = "1"
regex = "1"
uuid = "1"
serde = { version = "1", features = ["derive"] }
serde_json = "1"
serde-value = "0.7"
num-traits = "0.2"
once_cell = "1"
bson = "1"
chrono = "0.4"
chrono-tz = "0.8"
url = "2"
async-trait = "0.1"
futures-util = "0.3"
thiserror = "1"
syn = { version = "1", features = ["full", "extra-traits"] }
quote = "1"
proc-macro2 = "1"
darling = "0.14"
proc-macro-crate = "1"
Inflector = "0.11"
