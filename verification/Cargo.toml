[package]
name = "yurf"
version = "0.1.0"
edition = "2021"
publish = false

[dependencies]
clap = { version = "=4.6.7", default-features = false, features = ["std", "derive", "help", "usage", "error-context"] }
ltrait = "=1.5.0"
ltrait-extra = "=0.4.1"
ltrait-scorer-nucleo = "=0.5.0"
ltrait-sorter-frecency = "=0.3.0"
ltrait-source-desktop = "=0.7.0"
ltrait-source-task = "=0.1.0"
ltrait-ui-tui = "=0.6.0"
tikv-jemallocator = "0.6"
tokio = { version = "=1.54.1", features = ["macros", "rt-multi-thread"] }
tracing = { version = "=0.1.44", default-features = false, features = ["std"] }
