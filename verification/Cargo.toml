[package]
name = "pb_file_reader"
version = "0.1.0"
edition = "2021"
publish = false

[dependencies]
anyhow = "=1.0.104"
coarsetime = "=0.1.38"
crossbeam = "=0.8.5"
csv = "=1.4.0"
dashmap = "=6.2.1"
dbase = { version = "=0.8.0", features = ["serde"] }
encoding_rs = "=0.8.42"
encoding_rs_io = "=0.1.8"
ftlog = "=0.2.18"
notify = "=8.2.1"
once_cell = "=1.21.4"
rustc-hash = "=2.1.3"
serde = { version = "=1.0.229", features = ["derive"] }
windows = { version = "=0.59.0", features = ["Win32_Foundation", "Win32_Security", "Win32_Storage_FileSystem", "Win32_System_IO"] }
