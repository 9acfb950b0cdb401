[package]
name = "lvgl_codegen"
version = "0.1.0"
edition = "2021"
publish = false

[dependencies]
syn = { version = "*", features = ["full"] }
quote = "*"
Inflector = "*"

[dev-dependencies]
proc-macro2 = "*"
