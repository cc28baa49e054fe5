[package]
name = "cloc"
version = "0.1.0"
edition = "2021"
publish = false

[dependencies]
defmt = "*"
defmt-rtt = "*"
embassy-executor = "*"
embassy-rp = { version = "*", features = ["rp2040"] }
embassy-time = "*"
embedded-hal = "1"
fixed = "*"
panic-probe = "*"
