[package]
name = "cascade"
version = "0.1.0"
edition = "2021"
publish = false

[dependencies]
codespan-reporting = "0.11"
lalrpop-util = { version = "0.19", features = ["lexer"] }
sexp = "1.1"
thiserror = "1.0"
