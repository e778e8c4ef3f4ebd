[package]
name = "core_lib"
version = "0.1.0"
edition = "2021"
publish = false

[dependencies]
jni = "0.21"
libc = "0.2"
mimalloc = "0.1"
tokio = { version = "1", features = ["macros", "rt-multi-thread"] }
