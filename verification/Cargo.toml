[package]
name = "rubigo"
version = "0.1.0"
edition = "2021"
publish = false

[dependencies]
curl = { version = "0.4", default-features = false }
git2 = { version = "*", default-features = false }
json = "0.12"
num_cpus = "1"
regex = "1"
threadpool = "1"
