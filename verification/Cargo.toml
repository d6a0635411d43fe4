[package]
name = "runtime"
version = "0.1.0"
edition = "2021"
publish = false

[dependencies]
crossbeam-deque = "0.8"
futures = "0.3"
parking_lot = "0.12"
