[package]
name = "slottle"
version = "0.4.1"
edition = "2021"
publish = false

[dependencies]
std-semaphore = "0.1"
