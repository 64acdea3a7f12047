# esp32_lcd_test

Firmware logic of an ESP32-S3 service-health panel with a 240 x 240 ST7789
LCD, as a library whose functions carry proved contracts (`src/`) and a
thin ESP-IDF program (`app/`).

- `src/color.rs` — RGB565 colours and alpha blending, with laws on channels.
- `src/bitmap.rs` — 4-bit alpha bitmaps.
- `src/st7789.rs` — the ST7789 command stream (`St7789` records `LcdOp`s):
  reset and init, address windows, full-screen fill, clipped lines, filled
  circles, blended bitmaps, boot and status screens, and the 64-byte SPI
  writes that carry data.
- `src/on_panel.rs` — proofs that every drawing (of bitmaps of nonzero
  width) stays on the panel and fills each window it opens exactly.
- `src/text.rs` — trimming, search and equality on characters.
- `src/health/` — what each health check sends and how it judges the answer.
- `src/network.rs` — Wi-Fi credential rules and the connect / SNTP retry
  decisions.
- `app/` — `main`, the SPI/GPIO replay of `LcdOp`s, HTTPS requests, Wi-Fi
  and SNTP driving.
