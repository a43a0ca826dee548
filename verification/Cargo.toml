[package]
name = "presence_agent"
version = "0.1.0"
edition = "2021"
publish = false

[dependencies]
csv = "1"
env_logger = "*"
log = "0.4"
reqwest = "*"
tokio = { version = "1", features = ["macros", "rt-multi-thread", "time"] }
winapi = { version = "0.3", features = ["handleapi", "processthreadsapi", "psapi", "winnt", "winuser"] }
