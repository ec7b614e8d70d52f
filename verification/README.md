# shotly

The verified core of Shotly, a screenshot tool for macOS and Windows, written
in Verus.

- `src/` — the library. Its functions are proved against their contracts;
  the few calls into `std`, `base64`, `image` and `rand` go through small
  trusted wrappers (`#[verifier::external_body]`, and one
  `assume_specification` for `String::push`) whose contracts are believed,
  not proved:
  - `text`: decimal and hex formatting, trimming, splitting, comparing text;
  - `util`: path encoding for page addresses, time stamps, temporary file
    names and their expiry, Base64 and data URLs;
  - `pixels`: RGBA buffers, cropping and colour picking (through `image`);
  - `settings`: the settings and the fixed capture regions per monitor;
  - `capture`, `windows`, `commands`: monitor choice, overlay and pin
    windows, crop geometry, tray and shortcut actions;
  - `translate`, `json`: requests to the translation services and the
    reading of their answers;
  - `ocr`, `perm`, `detect`: OCR language lists, permission reports.
- `app/` — the desktop program around it: windows, tray, shortcuts,
  clipboard, screen capture, HTTP, files, and the macOS / Windows system
  calls.
- `tests/` — tests of the library on concrete values.
