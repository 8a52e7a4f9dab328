[package]
name = "files_recovery"
version = "0.1.0"
edition = "2021"
publish = false

[dependencies]
aho-corasick = "=1.1.5"
anyhow = "=1.0.104"
base64 = "=0.22.1"
blake3 = "=1.8.7"
cfb = "=0.16.0"
chardetng = "=0.1.17"
csv = "=1.4.0"
directories = "=6.0.0"
encoding_rs = "=0.8.44"
encoding_rs_io = "=0.1.8"
html-escape = "=0.2.15"
ntfs-reader = "=0.4.7"
rusqlite = { version = "=0.41.1", features = ["bundled"] }
sanitize-filename = "=0.6.0"
serde = { version = "=1.0.229", features = ["derive"] }
serde_json = "=1.0.154"
sha2 = "=0.10.9"
tar = "=0.4.46"
thiserror = "=2.0.21"
time = { version = "=0.3.55", features = ["formatting", "parsing", "macros"] }
tracing = "=0.1.44"
uuid = { version = "=1.29.0", features = ["v7"] }
windows = { version = "=0.62.2", features = ["Win32_Foundation", "Win32_Storage_FileSystem", "Win32_System_IO", "Win32_System_Ioctl", "Win32_System_SystemInformation", "Win32_System_Threading", "Win32_Security"] }
zip = { version = "=8.6.0", default-features = false, features = ["deflate"] }
