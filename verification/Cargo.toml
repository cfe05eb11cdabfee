[package]
name = "lint_pipeline"
version = "0.1.0"
edition = "2021"
publish = false

[dependencies]
dashmap = "5.5.3"
miette = { version = "5.10.0", features = ["fancy-no-backtrace"] }
oxc_allocator = "0.3.0"
oxc_ast = "0.3.0"
oxc_parser = "0.3.0"
oxc_span = "0.3.0"
oxc_syntax = "0.3.0"
rayon = "1.8.0"
regex = "1.10.2"
serde_json = "1.0.108"
