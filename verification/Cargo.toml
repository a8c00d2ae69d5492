[package]
name = "tui_realm_textarea"
version = "0.1.0"
edition = "2021"
publish = false

[dependencies]
tuirealm = "=3.3.0"
tui-textarea = { version = "=0.7.0", features = ["search"] }
cli-clipboard = "=0.4.0"
