[package]
name = "inbound_policy"
version = "0.1.0"
edition = "2021"
publish = false

[dependencies]
regex = "=1.13.1"
prost-types = "=0.14.4"
http = "=1.5.0"
linkerd2-proxy-api = { version = "=0.20.0", default-features = false, features = ["inbound"] }
futures = { version = "=0.3.34", default-features = false, features = ["std"] }
tracing = "=0.1.44"
thiserror = "=1.0.69"
tower-service = "0.3"
tower-layer = "0.3"
form_urlencoded = "1"
