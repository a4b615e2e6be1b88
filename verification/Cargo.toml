[package]
name = "omegabot_pipe"
version = "0.1.0"
edition = "2021"
publish = false

[dependencies]
winapi = { version = "0.3", features = ["errhandlingapi", "fileapi", "handleapi", "minwinbase", "minwindef", "winbase", "winerror", "winnt"] }
