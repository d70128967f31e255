[package]
name = "jsx_analyzer"
version = "0.1.0"
edition = "2021"
publish = false

[dependencies]
dashmap = "=6.2.1"
ignore = "=0.4.33"
oxc = "=0.139.0"
oxc_ast_visit = "=0.139.0"
oxc_resolver = "=11.24.3"
oxc_syntax = "=0.139.0"
rayon = "=1.12.0"
serde = { version = "=1.0.229", features = ["derive"] }
serde_json = "=1.0.151"
sonic-rs = "=0.5.10"
