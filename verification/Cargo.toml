[package]
name = "voice_changer"
version = "0.1.0"
edition = "2021"
publish = false

[dependencies]
ringbuf = "0.2"
tdpsola = "*"
aaudio = "*"
jni = "*"
log = "*"
android_logger = "*"
