[package]
name = "akjo_os"
version = "0.1.0"
edition = "2021"
publish = false

[dependencies]
x86_64 = { version = "0.14", default-features = false, features = ["instructions"] }
bit_field = "0.10"
bootloader_api = "0.11"
linked_list_allocator = "0.10"
spin = { version = "0.9", features = ["lock_api"] }
log = "0.4"
uart_16550 = { version = "0.2", default-features = false }
pic8259 = { version = "0.10", default-features = false }
lazy_static = { version = "1", features = ["spin_no_std"] }
embedded-graphics = "0.8"
acpi = "5"
aml = "0.16"
