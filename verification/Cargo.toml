[package]
name = "nextest-runner"
version = "0.1.0"
edition = "2021"
publish = false

[dependencies]
camino = "=1.2.6"
duct = "=0.13.7"
guppy = "=0.19.1"
indent_write = "=2.2.0"
nextest-metadata = "=0.3.1"
owo-colors = "=4.4.0"
serde_json = "=1.0.154"
