[package]
name = "goxkey"
version = "0.1.0"
edition = "2021"
publish = false

[dependencies]
vi = "=0.7.0"
once_cell = "=1.21.4"
log = "=0.4.34"
env_logger = "=0.10.2"
rdev = "=0.5.3"
druid = "=0.8.3"
libc = "=0.2.191"
auto-launch = "=0.5.0"
core-foundation = "=0.9.4"
core-graphics = "=0.22.3"
foreign-types = "=0.3.2"
cocoa = "=0.24.1"
objc = "=0.2.7"
objc-foundation = "=0.1.1"
objc_id = "=0.1.1"
accessibility = "=0.1.6"
accessibility-sys = "=0.1.3"
