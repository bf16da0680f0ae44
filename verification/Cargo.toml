[package]
name = "garden"
version = "0.1.0"
edition = "2021"
publish = false

[dependencies]
clap = { version = "4", features = ["derive", "env"] }
directories = "5"
edit = "0.1"
miette = "5"
owo-colors = "3"
rprompt = "2"
slug = "0.1"
