[package]
name = "cthulhu_server"
version = "0.1.0"
edition = "2021"
publish = false

[dependencies]
async-compression = { version = "0.4", features = ["tokio", "gzip", "zlib", "brotli", "zstd"] }
async-trait = "0.1"
base64 = "0.21"
bstr = "1"
bytes = "1"
chrono = "0.4"
encoding_rs = "0.8"
futures = "0.3"
hyper = { version = "0.14", features = ["full"] }
hyper-tungstenite = "0.11"
lazy_static = "1"
local-ip-address = "0.5"
moka = { version = "0.12", features = ["sync", "future"] }
rand = "0.8"
rcgen = { version = "0.11", features = ["x509-parser"] }
reqwest = { version = "0.11", default-features = false, features = ["rustls-tls"] }
rustls = "0.21"
rustls-native-certs = "0.6"
rustls-pemfile = "1"
serde = { version = "1", features = ["derive"] }
serde_json = "1"
thiserror = "1"
time = { version = "0.3", features = ["macros"] }
tokio = { version = "1", features = ["full"] }
tokio-rustls = "0.24"
tokio-tungstenite = { version = "0.20", features = ["rustls-tls-native-roots"] }
tokio-util = { version = "0.7", features = ["io", "codec"] }
tracing = "0.1"
tracing-subscriber = { version = "0.3", features = ["local-time"] }
urlencoding = "2"
