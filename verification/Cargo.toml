[package]
name = "bootstrapper"
version = "0.1.0"
edition = "2021"
publish = false

[dependencies]
zip = { version = "*", default-features = false }
serde = { version = "*", features = ["derive"] }
serde_json = "*"
reqwest = { version = "*", default-features = false, features = ["blocking", "json"] }
directories = "*"
native-dialog = "*"
libc = "*"
winapi = { version = "*", features = ["shlobj", "knownfolders", "combaseapi", "winerror"] }
thiserror = "*"
