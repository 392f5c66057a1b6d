[package]
name = "zenoh_wasm"
version = "0.1.0"
edition = "2021"
publish = false

[dependencies]
serde_json = "1"
flume = "0.11"
tokio = { version = "1", features = ["sync", "time", "macros", "rt"] }
tokio-util = "0.7"
futures = "0.3"
futures-util = "0.3"
web-time = "1"
wasm-bindgen = "0.2"
js-sys = "0.3"
web-sys = { version = "0.3", features = ["WebSocket", "BinaryType", "MessageEvent", "ErrorEvent", "CloseEvent", "Event", "Window", "WorkerGlobalScope"] }
wasm-bindgen-futures = "0.4"
console_error_panic_hook = "0.1"
tracing = "0.1"
tracing-wasm = "0.2"
async-trait = "0.1"
