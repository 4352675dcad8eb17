# devminds_lamp

Firmware library for the devminds lamp: a WS2812 strip of 31 LEDs with three
selectable patterns (brand colors, rainbow, white), three buttons and a status
LED, written in Verus.

- `src/led_strip_patterns.rs`: colors, the pixel map and its check, the
  pattern catalogue, the renderers, and the laws of the patterns.
- `src/led_strip.rs`: the lamp state (selected pattern, frame counter, frame),
  the main loop's decision for each frame tick or button action, and the laws
  of pattern selection.
- `src/buttons.rs`: button actions and the debounce decisions of a button task.
- `src/status_led.rs`: the level sequence of the heartbeat LED.
- `app/`: the firmware for the RP2350 (embassy executor, GPIO, PIO, DMA). It
  needs `embassy-rp`, `defmt-rtt` and `panic-probe` for the target, which only
  build for an ARM target.
- `tests/`: tests of the library.
