[package]
name = "jinja_fmt"
version = "0.1.0"
edition = "2021"
publish = false

[dependencies]
axum = "0.7"
lazy_static = "1"
pulldown-cmark = "*"
serde = { version = "1", features = ["derive"] }
serde_json = "1"
tokio = { version = "1", features = ["rt-multi-thread", "macros", "net"] }
tree-sitter = "*"
tree-sitter-jinja2 = "*"
