[package]
name = "agmem"
version = "0.3.0"
edition = "2021"
publish = false

[dependencies]
anyhow = "1"
blake3 = "=1.8.7"
clap = { version = "=4.6.7", features = ["derive", "env"] }
directories = "=6.0.0"
fastembed = { version = "=7.5.0", default-features = false, features = ["ort-load-dynamic", "hf-hub"] }
hf-hub = { version = "0.4", default-features = false, features = ["ureq"] }
jiff = "=0.2.39"
llama-cpp-2 = { version = "*", default-features = false }
model2vec-rs = "=0.4.0"
ndarray = "=0.17.2"
ort = { version = "=2.0.0-rc.15", default-features = false, features = ["coreml", "load-dynamic", "ndarray", "std"] }
rmcp = { version = "=3.8.0", features = ["client", "server", "macros", "transport-io"] }
schemars = "=1.2.3"
semver = "=1.0.28"
serde = { version = "1", features = ["derive"] }
serde_json = "=1.0.154"
thiserror = "*"
tokenizers = { version = "=0.22.2", default-features = false, features = ["fancy-regex"] }
tokio = { version = "=1.54.1", features = ["full"] }
tracing = "0.1"
tracing-subscriber = { version = "0.3", features = ["env-filter"] }
ureq = { version = "3", features = ["json"] }
