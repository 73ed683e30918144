[package]
name = "workbook"
version = "0.1.0"
edition = "2021"
publish = false

[dependencies]
colored = "*"
itertools = "=0.15.0"
rand = "=0.8.8"
unicode-segmentation = "*"
