[package]
name = "regression_viz"
version = "0.1.0"
edition = "2021"
publish = false

[dependencies]
plotly = { version = "0.10", features = ["wasm"] }
rand = "0.8"
rand_distr = "0.4"
wasm-bindgen = "0.2"
wasm-bindgen-futures = "0.4"
wasm-logger = "0.2"
web-sys = { version = "0.3", features = ["Window"] }
yew = { version = "0.21", features = ["csr"] }
yew-hooks = "0.3"
