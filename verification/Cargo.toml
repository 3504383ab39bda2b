[package]
name = "sumfold"
version = "0.1.0"
edition = "2021"
publish = false

[dependencies]
ark-ff = "0.4"
ark-poly = "0.4"
ark-std = "0.4"
ark-linear-sumcheck = "0.4"
ark-test-curves = { version = "0.4", features = ["bls12_381_scalar_field"] }
