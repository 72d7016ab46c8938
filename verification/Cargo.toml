[package]
name = "sup3"
version = "0.1.0"
edition = "2021"
publish = false

[dependencies]
url = "2"
wax = "*"
shell-escape = "*"
tokio = { version = "1", features = ["full"] }
tokio-util = { version = "*", features = ["io"] }
futures = "*"
async-recursion = "*"
async-stream = "*"
thiserror = "*"
console = "*"
indicatif = "*"
http = "*"
hyper = { version = "0.14", features = ["stream"] }
clap = { version = "4", features = ["derive"] }
clap_complete = "*"
aws-config = "*"
aws-sdk-s3 = "*"
aws-smithy-http = "*"
aws-smithy-types = "*"
aws-types = "*"
