[package]
name = "steal_pool"
version = "0.1.0"
edition = "2021"
publish = false

[dependencies]
async-task = "3"
crossbeam-deque = "0.7"
futures = "0.3"
num_cpus = "1"
once_cell = "1"
