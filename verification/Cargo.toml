[package]
name = "visor"
version = "0.1.0"
edition = "2021"
publish = false

[dependencies]
midly = "=0.5.3"
naga = { version = "=30.0.1", features = ["wgsl-in"] }
deno_ast = { version = "=0.53.3", default-features = false, features = ["transpiling"] }
serde = { version = "=1.0.229", features = ["derive"] }
serde_json = "=1.0.154"
tokio = { version = "=1.54.1", features = ["sync", "rt", "rt-multi-thread"] }
anyhow = "=1.0.104"
bevy_math = "=0.14.2"
