[package]
name = "picker"
version = "0.1.0"
edition = "2021"
publish = false

[dependencies]
css-color = "*"
druid = "0.7"
structopt = "0.3"
