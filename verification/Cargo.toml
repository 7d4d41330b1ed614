[package]
name = "embedded_audio_tools"
version = "0.1.0"
edition = "2021"
publish = false

[dependencies]
micromath = "=2.1.0"
tock-registers = "=0.10.1"
