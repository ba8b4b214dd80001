[package]
name = "upload_report"
version = "0.1.0"
edition = "2021"
publish = false

[dependencies]
thumbnailer = "*"
mime = "*"
aws-config = { version = "*", default-features = false }
aws_lambda_events = { version = "*", default-features = false, features = ["s3"] }
aws-sdk-dynamodb = { version = "*", default-features = false }
aws-sdk-s3 = { version = "*", default-features = false }
lambda_runtime = "*"
lettre = { version = "*", default-features = false, features = ["smtp-transport", "builder", "rustls-tls"] }
serde_json = "*"
tokio = { version = "*", features = ["macros"] }

[dev-dependencies]
image = { version = "*", default-features = false, features = ["png"] }
