[package]
name = "badge_leds"
version = "0.1.0"
edition = "2021"
publish = false

[dependencies]
arbitrary-int = "=1.3.0"
bao1x-api = { version = "=0.1.4", features = ["std"] }
log = "=0.4.35"
num-traits = "=0.2.19"
xous = "=0.9.71"
xous-api-names = "=0.9.72"
xous-api-log = "=0.1.70"
xous-api-ticktimer = "=0.9.71"
xous-api-susres = "=0.9.69"
