[package]
name = "rawsocket"
version = "0.1.0"
edition = "2021"
publish = false

[dependencies]
libc = "0.2"
winapi = { version = "0.3", features = ["handleapi", "minwindef", "ntdef", "winsock2", "ws2def", "ws2tcpip"] }
