[package]
name = "sevdesk"
version = "0.1.0"
edition = "2021"
publish = false

[dependencies]
clearscreen = "*"
fs_extra = "*"
process_path = "*"
rdev = "*"
winreg = "*"
