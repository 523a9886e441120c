[package]
name = "text2path"
version = "0.1.0"
edition = "2021"
publish = false

[dependencies]
unicode-bidi = "*"
rustybuzz = "*"
tiny-skia = "*"
pdfium-render = "*"
