[package]
name = "wfprust"
version = "0.1.0"
edition = "2021"
publish = false

[dependencies]
winapi = { version = "0.3", features = ["ntdef", "ntstatus", "guiddef", "basetsd", "rpcdce", "ws2def"] }
kernel-alloc = "*"
kernel-print = "*"
obfstr = "*"
array-init = "*"
memoffset = "*"
