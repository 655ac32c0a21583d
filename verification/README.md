# barometer

The logic behind Barometer, a system monitor for the Windows taskbar, as a
library whose behaviour is stated in contracts and proved with Verus.

## Layout

- `src/weather/` — Open-Meteo weather: units and settings (`models`), the
  condition marks and their colors (`badge`, `glyph`), the air-quality
  answer and bands (`air`), the detailed forecast's calendar, wall clocks,
  metric catalog, request fields, answer and day grouping (`detail`), and
  the current conditions, geocoding and IP geolocation answers (`client`).
  Numbers in an answer are kept as JSON numbers; turning them into doubles
  is the application's.
- `src/flyout/` — the detail panel: where it opens (`placement`), when it
  closes (`dismiss`), the icon cache's eviction (`appicon`), and the readings
  the processor, memory, disks, graphics, network, sensors and stack panels
  show.
- `src/json.rs` — JSON documents as plain values, read with serde_json.
- `src/text.rs`, `src/geometry.rs`, `src/taskbar.rs`, `src/theme.rs` — the
  small vocabulary the rest is written in.
- `app/` — a command line that reads recorded answers and readings from
  files, and the figures that are floating point.
- `tests/` — the library's tests.

Laws that relate several functions (calendar order is day order, a fitted
frame stays on the display, the newest icon is never evicted, and others)
are public proof functions beside the functions they speak of.
