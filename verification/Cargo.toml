[package]
name = "wmish"
version = "0.1.0"
edition = "2021"
publish = false

[dependencies]
serde_json = "=1.0.154"
tabled = "=0.22.0"
clap = { version = "=4.6.7", features = ["derive"] }
rustyline = "=19.0.0"
thiserror = "=2.0.21"
tokio = { version = "=1.54.1", features = ["rt-multi-thread", "macros"] }
windows = { version = "=0.58.0", features = ["Win32_Foundation", "Win32_Security", "Win32_System_Com", "Win32_System_Ole", "Win32_System_Rpc", "Win32_System_Variant", "Win32_System_Wmi"] }
windows-core = "=0.58.0"

[dev-dependencies]
nom = "8"
