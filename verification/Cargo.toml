[package]
name = "sheet_editor"
version = "0.1.0"
edition = "2021"
publish = false

[dependencies]
calamine = "*"
csv = "1"
serde = { version = "1", features = ["derive"] }
thiserror = "*"
xlsxwriter = "*"
