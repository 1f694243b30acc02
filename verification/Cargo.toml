[package]
name = "xy_os"
version = "0.1.0"
edition = "2021"
publish = false

[dependencies]
riscv = "*"
buddy_system_allocator = "*"
