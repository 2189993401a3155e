[package]
name = "elm_ensemble"
version = "0.1.0"
edition = "2021"
publish = false

[dependencies]
rand = "0.8"
rand_chacha = "0.3"
rand_distr = "0.4"
ndarray = "0.15"
linfa = "0.7"
linfa-linear = "0.7"
linfa-elasticnet = "0.7"
linfa-pls = "0.7"
pyo3 = "0.20"
numpy = "0.20"
