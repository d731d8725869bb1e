[package]
name = "stack_outputs"
version = "0.1.0"
edition = "2021"
publish = false

[dependencies]
convert_case = "0.6"
aws-config = "1"
aws-sdk-cloudformation = "1"
tokio = { version = "1", features = ["macros", "rt-multi-thread"] }
