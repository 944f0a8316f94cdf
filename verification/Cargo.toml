[package]
name = "kubewarden_policy_sdk"
version = "0.1.0"
edition = "2021"
publish = false

[dependencies]
anyhow = "*"
hex = "*"
k8s-openapi = { version = "*", features = ["latest"] }
oci-spec = "*"
serde = { version = "*", features = ["derive"] }
serde_json = "*"
wapc-guest = "*"

[dev-dependencies]
