[package]
name = "fb_console"
version = "0.1.0"
edition = "2021"
publish = false

[dependencies]
embedded-graphics = "*"
tock-registers = "*"
linked_list_allocator = "*"
