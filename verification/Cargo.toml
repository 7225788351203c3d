[package]
name = "bluer-ble-peripheral"
version = "0.1.0"
edition = "2021"
publish = false

[dependencies]
bluer = { version = "=0.17.4", features = ["bluetoothd"] }
byteorder = "=1.5.0"
# Not called: `vendored` builds the libdbus that bluer links against.
dbus = { version = "=0.9.12", features = ["vendored"] }
futures-util = "=0.3.34"
log = "=0.4.35"
tokio = { version = "=1.54.1", features = ["rt", "sync", "macros", "io-std", "io-util"] }
