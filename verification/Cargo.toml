[package]
name = "low_latency_data_structures"
version = "0.1.0"
edition = "2021"
publish = false

[dependencies]
bytemuck = "1"
libc = "0.2"
core_affinity = "0.8"
hdrhistogram = { version = "7", default-features = false }
quanta = "0.12"
rtrb = "0.3"
ringbuf = "0.4"
heapless = "0.8"
nexus-queue = "*"
crossbeam-channel = "0.5"
flume = { version = "0.11", default-features = false }
bus = "2"

[dev-dependencies]
