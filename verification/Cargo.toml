[package]
name = "axvisor_x86"
version = "0.1.0"
edition = "2021"
publish = false

[dependencies]
axvmconfig = { version = "=0.8.0", default-features = false }
axdevice_base = "=0.6.0"
axvm-types = "=0.6.0"
ax-errno = "=0.6.1"
ax-hal = { version = "=0.5.23", features = ["irq"] }
ax-driver = "=0.10.0"
