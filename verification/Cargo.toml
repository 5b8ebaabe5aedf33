[package]
name = "apacheta"
version = "0.1.0"
edition = "2021"
publish = false

[dependencies]
chrono = { version = "0.4", default-features = false, features = ["std"] }
gexiv2-sys = "*"
gpx = "*"
image = { version = "*", default-features = false, features = ["jpeg", "png"] }
log = "0.4"
reqwest = { version = "*", default-features = false, features = ["blocking", "json"] }
rexiv2 = "*"
serde = { version = "1", features = ["derive"] }
simplelog = "*"
tera = { version = "1", default-features = false }
toml = "*"
