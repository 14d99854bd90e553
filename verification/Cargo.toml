[package]
name = "audio_courier"
version = "0.1.0"
edition = "2021"
publish = false

[dependencies]
base64 = "*"
bytes = "*"
chrono = "*"
cpal = "*"
dasp = { version = "*", features = ["signal", "interpolate", "interpolate-linear"] }
deepgram = "*"
futures = "*"
futures-util = "*"
hmac = "*"
hound = "*"
rand = "*"
reqwest = { version = "*", default-features = false, features = ["json", "multipart", "stream", "rustls-tls"] }
rustls = "*"
serde = { version = "*", features = ["derive"] }
serde_json = "*"
sha1 = "*"
tokio = { version = "*", features = ["rt-multi-thread", "sync", "time", "net", "io-util", "macros"] }
tokio-tungstenite = { version = "*", features = ["rustls-tls-webpki-roots"] }
tungstenite = "*"
uuid = { version = "*", features = ["v4"] }
vosk = "*"
