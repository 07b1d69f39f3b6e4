[package]
name = "pdf2pwg"
version = "0.1.0"
edition = "2021"
publish = false

[dependencies]
pdfium-render = "*"
blocking = "*"
bytes = "*"
thiserror = "*"
