[package]
name = "item_crud"
version = "0.1.0"
edition = "2021"
publish = false

[dependencies]
serde = { version = "1", features = ["derive"] }
stdweb = "0.4"
yew = "0.17"
