[package]
name = "connectbox"
version = "0.1.0"
edition = "2021"
publish = false

[dependencies]
ascii_table = "4"
clap = { version = "4", features = ["derive"] }
color-print = "0.3"
dirs = "5"
once_cell = "1"
quick-xml = { version = "0.28", features = ["serialize"] }
reqwest = { version = "0.11", default-features = false, features = ["cookies"] }
rustyline = "11"
serde = { version = "1", features = ["derive"] }
thiserror = "1"
tokio = { version = "1", features = ["macros", "rt"] }
tracing = "0.1"
tracing-subscriber = "0.3"
url = "2"
