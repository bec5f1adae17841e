[package]
name = "pass"
version = "0.1.0"
edition = "2021"
publish = false

[dependencies]
similar = "*"
passwords = "*"
git2 = "*"
gpgme = "*"
id_tree = "*"
directories = "*"
tempfile = "*"
walkdir = "*"
thiserror = "*"
