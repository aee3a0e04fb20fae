[package]
name = "pycodegen"
version = "0.1.0"
edition = "2021"
publish = false

[dependencies]
siphasher = "=1.0.4"
malachite-bigint = "=0.5.1"
num-traits = "=0.2.19"
num-complex = "=0.4.6"
itertools = "=0.14.0"
ruff_python_ast = "<0.0.8"
ruff_python_codegen = "<0.0.8"
ruff_text_size = "<0.0.8"
ruff_source_file = "<0.0.8"
