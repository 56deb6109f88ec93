# rust-colorpicker

A lightweight native color picker whose logic is verified with Verus.

## Layout

- `src/` — the verified library.
  - `color` — `Color`, its `COLORREF` packing, hex formatting and parsing
    (`#RGB`, `#RGBA`, `#RRGGBB`, `#RRGGBBAA`), with round-trip laws.
  - `style` — palettes, labels and fonts.
  - `dialog` — `ColorPicker` settings (DPI and corner-radius clamping, scale
    percentages), picker events and errors.
  - `popup` — `PopupSession`, the state machine of the picker popup: pointer,
    key and hex-field events in, window actions and realtime events out.
    Previews come while the session runs, then exactly one final event:
    confirming reports the current color, every other exit the incoming one.
    With alpha editing disabled the incoming alpha is kept. The layout is
    scaled to the picker's DPI.
  - `render` — checkerboard, alpha blending and DIB pixel buffers.
  - `message` — window-message parameters, popup placement, UTF-16 text.
  - `field` — the state behind the color-field control.
  - `text` — character-level text building.
- `app/` — the Windows backend: the `Pick` trait that opens the popup from a
  `ColorPicker` (`picker.pick(color)`), the Win32/GDI popup and color-field
  control, and the hue/saturation/value conversions, which use floating point.
  It carries out what the library decides.
- `tests/` — tests of the library.
