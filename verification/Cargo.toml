[package]
name = "gamemon"
version = "0.1.0"
edition = "2021"
publish = false

[dependencies]
quoted-string = "0.6"
sysinfo = "0.28"
chrono = "0.4"
log = "0.4"
ureq = "2.6"
winreg = "0.10"
winapi = { version = "0.3", features = ["winuser", "sysinfoapi", "winbase"] }
windows-win = "2.4"
winsafe = { version = "0.0.14", features = ["gui"] }
eventlog = "0.2"
wintrap = "0.3"
