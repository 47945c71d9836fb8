[package]
name = "parallel-event-emitter"
version = "0.1.1"
edition = "2021"
publish = false

[dependencies]
fnv = "1.0"
futures = "0.1"
futures-cpupool = "0.1"
trace-error = "0.1"
