[package]
name = "trillium-frontend"
version = "0.4.1"
edition = "2021"
publish = false

[dependencies]
log = "=0.4.35"
portpicker = "=0.1.1"
proc-macro2 = "=1.0.107"
quote = "=1.0.47"
trillium = "=1.3.0"
trillium-client = "=0.9.8"
trillium-http = "=1.3.10"
trillium-proxy = "=0.8.3"
trillium-server-common = "=0.7.7"
trillium-static-compiled = "=0.7.0"

[dev-dependencies]
trillium-testing = ">=0.9, <0.11"
