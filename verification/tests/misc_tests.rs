use w4113::granulizer::GrainEnvelope;
use w4113::midi::{midi_callback, NoteEvent};
use w4113::plugin::BitCrusher;
use w4113::thread::{reload, take_reload};
use w4113::tv::BasicVisualizer;

#[test]
fn midi_notes_on_and_off() {
    assert_eq!(midi_callback(&[144, 60, 100]), NoteEvent::On { note: 60, velocity: 100 });
    assert_eq!(midi_callback(&[144, 60, 0]), NoteEvent::Off { note: 60, velocity: 0 });
    assert_eq!(midi_callback(&[128, 61, 64, 9]), NoteEvent::Off { note: 61, velocity: 64 });
    assert_eq!(midi_callback(&[176, 7, 127]), NoteEvent::Ignore);
}

#[test]
fn a_reload_request_is_taken_once() {
    let mut flag = false;
    assert!(!take_reload(&mut flag));
    reload(&mut flag);
    assert!(flag);
    assert!(take_reload(&mut flag));
    assert!(!take_reload(&mut flag));
}

#[test]
fn a_bit_crusher_keeps_its_bit_count() {
    let mut b = BitCrusher::new(1);
    assert_eq!(b.bits(), 1);
    b.set_bits(12);
    assert_eq!(b.bits(), 12);
}

#[test]
fn plain_settings_types() {
    assert_ne!(GrainEnvelope::Sine, GrainEnvelope::Sinc);
    assert_eq!(BasicVisualizer {}, BasicVisualizer {});
}
