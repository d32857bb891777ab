[package]
name = "jpgshrink"
version = "0.1.0"
edition = "2021"
publish = false

[dependencies]
image = "*"
mozjpeg = "*"
rexiv2 = "*"
rayon = "*"
clap = "*"
colored = "*"
atty = "*"
snafu = "*"
