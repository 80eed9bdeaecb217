[package]
name = "dewatermark"
version = "0.1.0"
edition = "2021"
publish = false

[dependencies]
base64 = "0.21"
gloo = "0.10"
image = "0.24"
js-sys = "0.3"
rand = "0.8"
web-sys = { version = "0.3", features = ["DataTransfer", "DragEvent", "Event", "File", "FileList", "HtmlInputElement"] }
yew = { version = "0.21", features = ["csr"] }
