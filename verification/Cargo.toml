[package]
name = "succotash"
version = "0.1.0"
edition = "2021"
publish = false

[dependencies]
image = "=0.24.9"
async-std = "=1.13.2"
clap = "=2.34.0"
fern = { version = "=0.6.2", features = ["colored"] }
log = "=0.4.34"
chrono = "=0.4.45"

[dev-dependencies]
prisma = "=0.1.1"
angular-units = "=0.2.4"
