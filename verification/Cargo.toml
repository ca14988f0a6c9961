[package]
name = "ecma_parse_cat"
version = "0.1.0"
edition = "2021"
publish = false

[dependencies]
ecma-lex-cat = "*"
ecma-syntax-cat = "*"
