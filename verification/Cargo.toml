[package]
name = "smallvec"
version = "0.1.0"
edition = "2021"
publish = false

[dependencies]
proptest = "*"
crabcheck = "*"
hegeltest = "=0.3.7"
quickcheck = "*"
rand = "*"
