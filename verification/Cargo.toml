[package]
name = "sprite_ed"
version = "0.1.0"
edition = "2021"
publish = false

[dependencies]
gtk = "0.9"
gdk = "0.13"
gdk-pixbuf = "0.9"
cairo-rs = "0.9"
glib = "0.10"
gio = "0.9"
glib-sys = "0.10"
gtk-sys = "0.10"
once_cell = "1"
