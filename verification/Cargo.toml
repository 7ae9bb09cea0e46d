[package]
name = "hdl_script_gen"
version = "0.1.0"
edition = "2021"
publish = false

[dependencies]
clap = "4"
indexmap = "2"
serde = { version = "1", features = ["derive"] }
serde_json = "1"
tera = "1"
