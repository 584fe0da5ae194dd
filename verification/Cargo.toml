[package]
name = "joshuto"
version = "0.1.0"
edition = "2021"
publish = false

[dependencies]
fs_extra = "1"
ncurses = "5"
termion = "1.5"
