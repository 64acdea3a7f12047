[package]
name = "esp32_lcd_test"
version = "0.1.0"
edition = "2021"
publish = false

[dependencies]
log = "0.4"
embedded-svc = "*"
esp-idf-svc = "*"
esp-idf-hal = "*"
esp-idf-sys = "*"
