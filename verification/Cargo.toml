[package]
name = "rtcm2rinex"
version = "0.1.0"
edition = "2021"
publish = false

[dependencies]
bitflags = "2"
chrono = "0.4"
clap = "3"
flate2 = "1"
memmap2 = "0.9"
thiserror = "1"
