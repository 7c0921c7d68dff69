[package]
name = "pixui"
version = "0.1.0"
edition = "2021"
publish = false

[dependencies]
annotate-snippets = "=0.12.17"
anstream = "=0.6.21"
slotmap = "=1.1.1"
parking_lot = "=0.12.5"
facet = "=0.46.5"
tracing = "0.1"
tracing-error = "0.2"
tracing-subscriber = { version = "0.3", default-features = false, features = ["registry", "std"] }
