[package]
name = "dns_connector"
version = "0.1.0"
edition = "2021"
publish = false

[dependencies]
rand = "=0.10.3"
futures = "=0.3.34"
hyper = "=1.12.0"
trust-dns-client = "=0.23.2"
