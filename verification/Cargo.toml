[package]
name = "datakit"
version = "0.1.0"
edition = "2021"
publish = false

[dependencies]
serde = "*"
serde_json = "*"
serde-json-wasm = "*"
form_urlencoded = "*"
url = "*"
handlebars = "*"
proxy-wasm = "*"
log = "*"
