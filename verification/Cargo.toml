[package]
name = "neon"
version = "0.1.0"
edition = "2021"
publish = false

[dependencies]
async-task = "=4.7.1"
crossbeam-queue = "=0.3.14"
fxhash = "0.2"
libc = "0.2"
log = "0.4"
ntex-io-uring = "=0.7.120"
ntex-polling = "=3.8.0"
oneshot = "0.1"
scoped-tls = "1"
swap-buffer-queue = "=0.2.1"
