[package]
name = "acc"
version = "0.1.0"
edition = "2021"
publish = false

[dependencies]
triton-vm = "*"
camino = "*"
clap = "*"
