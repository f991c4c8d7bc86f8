[package]
name = "thermal_affinity"
version = "0.1.0"
edition = "2021"
publish = false

[dependencies]
android_logger = "0.13"
anyhow = "1"
jni = "0.21"
libc = "0.2"
log = "0.4"
