[package]
name = "git-mit"
version = "0.1.0"
edition = "2021"
publish = false

[dependencies]
clap = "3.1"
clap_generate = "3.0"
git2 = { version = "0.14", default-features = false }
xdg = "2.4"
mit-lint = "2"
miette = "4"

[dev-dependencies]
quickcheck = "1"
