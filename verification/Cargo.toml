[package]
name = "lionclip"
version = "0.1.0"
edition = "2021"
publish = false

[dependencies]
gtk4 = { version = "*", features = ["v4_10"] }
libadwaita = { version = "*", features = ["v1_4"] }
gdk4-x11 = "*"
gio = "*"
glib = "*"
glib-unix = "*"
rusqlite = "*"
x11rb = { version = "*", features = ["randr", "xtest"] }
libc = "*"
