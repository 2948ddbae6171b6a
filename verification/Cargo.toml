[package]
name = "luninstaller"
version = "0.1.0"
edition = "2021"
publish = false

[dependencies]
gtk = "0.18"
gio = "0.18"
glib = "0.18"
gdk = "0.18"
gdk-pixbuf = "0.18"
pango = "0.18"
