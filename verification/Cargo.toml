[package]
name = "hypervisor"
version = "0.1.0"
edition = "2021"
publish = false

[dependencies]
iced-x86 = { version = "1", default-features = false, features = ["std", "decoder", "block_encoder", "instr_info"] }
x86 = "0.52"
log = "0.4"
static_assertions = "1"
com_logger = "*"
wdk-sys = "*"
wdk-panic = "*"
