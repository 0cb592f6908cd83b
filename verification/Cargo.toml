[package]
name = "eilmeldung"
version = "0.1.0"
edition = "2021"
publish = false

[dependencies]
unicode-width = "=0.2.3"
htmlescape = "=0.3.1"
shell-words = "=1.1.1"
shellexpand = "=3.1.2"
libreadability = "=0.3.0"
indexmap = "=2.14.2"
url = "=2.5.8"
ratatui = { version = "=0.30.2", default-features = false }
htmd = "*"
