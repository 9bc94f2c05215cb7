[package]
name = "dicom_codec"
version = "0.1.0"
edition = "2021"
publish = false

[dependencies]
base64 = "0.22"
byteordered = "0.6"
gdcm-rs = "*"
serde = { version = "1", features = ["derive"] }
serde_json = { version = "1", features = ["preserve_order"] }
snafu = "0.8"
