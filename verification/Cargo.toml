[package]
name = "rsweb"
version = "0.1.0"
edition = "2021"
publish = false

[dependencies]
url = "2"
serde = { version = "1", features = ["derive"] }
serde_json = "1"
hyper = { version = "0.14", features = ["full"] }
routerify = "3"
mongodb = "2"
bson = "2"
async-trait = "0.1"
futures = "0.3"
tokio = { version = "1", features = ["full"] }
