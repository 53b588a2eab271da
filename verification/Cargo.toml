[package]
name = "matrixcompare"
version = "0.1.0"
edition = "2021"
publish = false

[dependencies]
num = "=0.4.3"
num-traits = "=0.2.19"
proptest = { version = "1", default-features = false, features = ["std"] }

[dev-dependencies]
quickcheck = { version = "=1.1.0", default-features = false }
