[package]
name = "kotoba_player"
version = "0.1.0"
edition = "2021"
publish = false

[dependencies]
lindera = ">=0.4, <0.8"
lindera-core = ">=0.4, <0.8"
