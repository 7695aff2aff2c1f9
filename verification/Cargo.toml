[package]
name = "swarm"
version = "0.1.2"
edition = "2021"
publish = false

[dependencies]
bindgen = { version = "0.72", default-features = false, features = ["runtime"] }
clap = { version = "=4.6.7", features = ["derive"] }
crossterm = { version = "=0.29.0", default-features = false }
directories = "=6.0.0"
gtk4 = "=0.10.3"
libc = "=0.2.191"
libghostty-vt = "=0.1.1"
pangocairo = "=0.21.5"
serde = { version = "=1.0.229", features = ["derive"] }
serde_json = "=1.0.154"
thiserror = "=2.0.21"
tokio = { version = "=1.54.1", default-features = false, features = ["rt-multi-thread", "macros"] }
turso = { version = "=0.5.3", default-features = false }
