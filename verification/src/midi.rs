//! MIDI input: what an incoming message asks the synthesizer to do.

use vstd::prelude::*;

verus! {

/// What a MIDI message asks for.
#[derive(Clone, Copy, Debug, PartialEq, Eq)]
pub enum NoteEvent {
    /// Start sounding `note` at `velocity`.
    On { note: u8, velocity: u8 },
    /// Stop sounding `note`.
    Off { note: u8, velocity: u8 },
    /// Nothing the synthesizer acts on.
    Ignore,
}

/// The meaning of a message `[status, note, velocity, ..]`: status 144 is a
/// note-on, except with velocity 0, which is a note-off; status 128 is a
/// note-off; any other status is ignored.
pub open spec fn note_event_spec(message: Seq<u8>) -> NoteEvent {
    let status = message[0];
    let note = message[1];
    let velocity = message[2];
    if status == 144 {
        if velocity == 0 {
            NoteEvent::Off { note, velocity }
        } else {
            NoteEvent::On { note, velocity }
        }
    } else if status == 128 {
        NoteEvent::Off { note, velocity }
    } else {
        NoteEvent::Ignore
    }
}

/// Decodes an incoming MIDI message of at least three bytes.
pub fn midi_callback(message: &[u8]) -> (r: NoteEvent)
    requires
        message@.len() >= 3,
    ensures
        r == note_event_spec(message@),
        message@[0] == 144 && message@[2] > 0 ==> r == (NoteEvent::On { note: message@[1], velocity: message@[2] }),
        (message@[0] == 144 && message@[2] == 0) || message@[0] == 128
            ==> r == (NoteEvent::Off { note: message@[1], velocity: message@[2] }),
        message@[0] != 144 && message@[0] != 128 ==> r == NoteEvent::Ignore,
{
    let status = message[0];
    let note = message[1];
    let velocity = message[2];
    match status {
        144 => match velocity {
            0 => NoteEvent::Off { note, velocity },
            _ => NoteEvent::On { note, velocity },
        },
        128 => NoteEvent::Off { note, velocity },
        _ => NoteEvent::Ignore,
    }
}

/// Law: a note-on message (status 144) starts its note at its velocity for
/// every velocity above 0; only velocity 0, or a note-off message (status
/// 128), stops the note; every other status is ignored.
pub proof fn lemma_note_on_off(message: Seq<u8>)
    requires
        message.len() >= 3,
    ensures
        message[0] == 144 && message[2] > 0
            ==> note_event_spec(message) == (NoteEvent::On { note: message[1], velocity: message[2] }),
        (message[0] == 144 && message[2] == 0) || message[0] == 128
            ==> note_event_spec(message) == (NoteEvent::Off { note: message[1], velocity: message[2] }),
        message[0] != 144 && message[0] != 128 ==> note_event_spec(message) == NoteEvent::Ignore,
{
}

} // verus!
