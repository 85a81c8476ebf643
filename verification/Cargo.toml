[package]
name = "gpl-nft-voter"
version = "0.1.0"
edition = "2021"
publish = false

[dependencies]
anchor-lang = "*"
bitvec = "1"
itertools = "*"
mpl-token-metadata = "*"
