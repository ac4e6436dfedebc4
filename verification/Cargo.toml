[package]
name = "midi_patcher"
version = "0.1.0"
edition = "2021"
publish = false

[dependencies]
portmidi = "0.2.6"
chan = "*"
chan-signal = "0.3.3"
libc = "*"
notify = "4"
risp = "0.7.0"
