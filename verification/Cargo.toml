[package]
name = "java_class_model"
version = "0.1.0"
edition = "2021"
publish = false

[dependencies]
glob = "0.3"
tree-sitter = "0.20"
tree-sitter-java = "0.20"
