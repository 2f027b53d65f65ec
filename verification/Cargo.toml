[package]
name = "blew"
version = "0.1.0"
edition = "2021"
publish = false

[dependencies]
bluer = { version = "=0.17.4", features = ["bluetoothd", "l2cap"] }
dispatch2 = "*"
futures-core = "=0.3.34"
jni = "=0.22.4"
ndk-context = "=0.1.1"
objc2 = "*"
objc2-core-bluetooth = "*"
objc2-foundation = "*"
parking_lot = "=0.12.5"
serde_json = "=1.0.154"
thiserror = "=2.0.21"
tokio = { version = "=1.54.1", features = ["io-util", "macros", "rt", "rt-multi-thread", "sync", "time"] }
tokio-stream = { version = "=0.1.19", features = ["sync"] }
tracing = "=0.1.44"
uuid = "=1.29.0"
