[package]
name = "ide_shell"
version = "0.1.0"
edition = "2021"
publish = false

[dependencies]
chrono = "0.4"
codemirror-sys = "0.2"
console_error_panic_hook = "0.1"
dominator = "0.5"
futures = "0.3"
futures-signals = "0.3"
js-sys = "0.3"
once_cell = "1"
regex = "1"
tracing-subscriber = { version = "0.3", features = ["env-filter"] }
tracing-web = "0.1"
wasm-bindgen = "0.2"
web-sys = { version = "0.3", features = ["Window"] }
