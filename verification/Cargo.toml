[package]
name = "ble-gatt"
version = "0.1.0"
edition = "2021"
publish = false

[dependencies]
uuid = { version = "1", features = ["v4"] }
async-trait = "0.1"
futures = "0.3"
log = "0.4"
serde = { version = "1", features = ["derive"] }
serde_json = "1"
thiserror = "1"
tokio = { version = "1", features = ["full"] }
tokio-stream = { version = "0.1", features = ["sync"] }
bluer = { version = "0.17", features = ["bluetoothd"] }
jni = "0.21"
ndk-context = "0.1"
