[package]
name = "loan_ec"
version = "0.1.0"
edition = "2021"
publish = false

[dependencies]
serde = { version = "=1.0.229", features = ["derive"] }
serde_json = "=1.0.151"
num-complex = "=0.2.4"
rayon = "=1.12.0"
fang_oost = "=0.15.1"
cf_functions = "=0.16.0"
cf_dist_utils = "=0.10.0"
