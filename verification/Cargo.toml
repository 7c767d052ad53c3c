[package]
name = "view_state"
version = "0.1.0"
edition = "2021"
publish = false

[dependencies]
anyhow = "1"
dioxus = { version = "0.5", default-features = false, features = ["macro", "html", "hooks", "signals", "launch"] }
dioxus-logger = "0.4"
log = "0.4"
manganis = "0.2"
tailwind_fuse = "0.3"
tokio = { version = "1", features = ["time", "sync"] }
