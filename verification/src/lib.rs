//! Verified core of the w4113 audio workstation: stream-configuration
//! selection, the JSON-backed settings store, effect strips, keyboard
//! interfaces and the small decision procedures that drive the audio,
//! MIDI and HID threads.

pub mod config;
pub mod devices;
pub mod frontend;
pub mod granulizer;
pub mod interface;
pub mod json;
pub mod midi;
pub mod plugin;
pub mod stream;
pub mod strip;
pub mod text;
pub mod thread;
pub mod tv;
