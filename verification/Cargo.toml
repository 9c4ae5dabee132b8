[package]
name = "zigbee_mac"
version = "0.1.0"
edition = "2021"
publish = false

[dependencies]
rand = "0.7"
snowflake = "1.3"
futures = "0.3"
async-std = "1"
serialport = { version = "4", default-features = false }
pcap = "0.7"
libc = "0.2"
pin-project = "1"
