# w4113

The core of a small audio workstation, written in Verus: every function in
`src/` carries a contract that Verus proves.

- `src/stream.rs` – choosing a stream configuration from what a device
  supports (channels, then sample rate, then buffer size), and the textual
  form in which configurations are listed and requested.
- `src/devices.rs` – choosing the host and devices by name.
- `src/json.rs`, `src/config.rs` – a JSON model and the settings store read
  and written by dotted keys.
- `src/strip.rs`, `src/frontend.rs` – effect strips, their routing to output
  channels, and the changes requested by the user interface.
- `src/interface.rs` – keyboard key codes, device identities and the
  tracking of held keys from keyboard reports.
- `src/midi.rs`, `src/thread.rs`, `src/plugin.rs` – MIDI message decoding,
  the audio thread's reload request, integer effect settings.
- `src/text.rs` – decimal formatting and parsing, splitting, and the two
  trusted wrappers around `std` string functions.

`app/` is the program around the library: audio, MIDI and HID devices, the
settings file, floating-point signal processing, and the user-interface
events. `tests/` holds the tests of the library.
