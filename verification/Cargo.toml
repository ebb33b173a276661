[package]
name = "pdf_viewer"
version = "0.1.0"
edition = "2021"
publish = false

[dependencies]
sha2 = "=0.10.9"
anyhow = "=1.0.104"
flate2 = "=1.1.10"
iced = { version = "=0.14.0", default-features = false, features = ["canvas", "image-without-codecs", "tiny-skia", "tokio", "x11"] }
iced_color_picker = "=0.14.0"
objc2-app-kit = "=0.3.2"
objc2-foundation = "=0.3.2"
pdfium = "=0.10.4"
raw-window-handle = "=0.6.2"
serde = { version = "1", features = ["derive"] }
tar = "=0.4.46"
toml = "=0.8.23"
ureq = "=2.12.1"
window-vibrancy = "=0.8.1"
