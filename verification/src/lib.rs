//! Logic of an ESP32-S3 service-health panel: RGB565 colour arithmetic,
//! the ST7789 command stream that draws the panel, the health-check
//! request/response rules, and the Wi-Fi / SNTP start-up decisions.
pub mod bitmap;
pub mod color;
pub mod health;
pub mod st7789;
pub mod text;
pub mod network;
pub mod on_panel;
pub mod screens;
