[package]
name = "splitflap"
version = "0.1.0"
edition = "2021"
publish = false

[dependencies]
critical-section = "*"
edge-dhcp = "*"
edge-mdns = "*"
edge-nal = "*"
edge-nal-embassy = "*"
embassy-executor = "*"
embassy-futures = "*"
embassy-net = { version = "*", features = ["dhcpv4", "udp", "tcp", "medium-ethernet"] }
embassy-sync = "*"
embassy-time = "*"
embedded-hal = "*"
embedded-hal-bus = "*"
embedded-stepper = "*"
esp-alloc = "*"
esp-bootloader-esp-idf = { version = "*", features = ["esp32c3"] }
esp-hal = { version = "*", features = ["esp32c3", "unstable"] }
esp-println = { version = "*", features = ["esp32c3"] }
esp-radio = { version = "*", features = ["esp32c3", "wifi"] }
esp-rtos = { version = "*", features = ["esp32c3", "embassy", "esp-radio"] }
heapless = { version = "*", features = ["serde"] }
log = "*"
picoserve = { version = "*", features = ["embassy"] }
port-expander = "*"
serde = { version = "*", default-features = false, features = ["derive"] }
static_cell = "*"
uln2003 = "*"
