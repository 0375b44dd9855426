[package]
name = "breakwater_ebpf"
version = "0.1.0"
edition = "2021"
publish = false

[dependencies]
anyhow = "*"
aya = "*"
aya-log = "*"
clap = { version = "*", features = ["derive"] }
log = "*"
rlimit = "*"
simplelog = "*"
tokio = { version = "*", features = ["macros", "rt", "rt-multi-thread", "signal", "time"] }
