[package]
name = "pcap_file"
version = "0.1.0"
edition = "2021"
publish = false

[dependencies]
byteorder = "1"
byteorder_slice = "*"
thiserror = "1"

[dev-dependencies]
hex = "0.4"
