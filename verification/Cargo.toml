[package]
name = "tuitty"
version = "0.1.0"
edition = "2021"
publish = false

[dependencies]
unicode-width = "=0.1.14"
unicode-segmentation = "=1.13.3"
libc = "=0.2.191"
winapi = { version = "=0.3.9", features = ["wincon", "winuser", "consoleapi", "minwindef", "processenv", "winbase", "handleapi", "fileapi", "winnt"] }
