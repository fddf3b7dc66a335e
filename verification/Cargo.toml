[package]
name = "sink_delivery"
version = "0.1.0"
edition = "2021"
publish = false

[dependencies]
rdkafka = "*"
futures = "*"
