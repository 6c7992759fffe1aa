[package]
name = "vehicle_management"
version = "0.1.0"
edition = "2021"
publish = false

[dependencies]
pwhash = "*"
uuid = { version = "*", features = ["v4"] }
chrono = "*"
serde = { version = "*", features = ["derive"] }
serde_json = "*"
aws-config = "*"
aws-sdk-dynamodb = "*"
lambda_http = "*"
tokio = { version = "*", features = ["macros", "rt-multi-thread"] }
async-trait = "*"
tracing-subscriber = { version = "*", features = ["json"] }
