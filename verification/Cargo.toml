[package]
name = "solbridxml2mqtt"
version = "0.1.0"
edition = "2021"
publish = false

[dependencies]
xml = "=1.4.0"
serde = { version = "=1.0.229", features = ["derive"] }
toml = "=1.1.8"
tokio = { version = "=1.54.1", features = ["macros", "rt-multi-thread", "time"] }
reqwest = { version = "=0.13.5", default-features = false }
rumqttc = { version = "=0.25.1", default-features = false }
influxdb2 = { version = "=0.5.2", default-features = false }
futures = "=0.3.34"

[dev-dependencies]
serde-xml-rs = "=0.8.2"
