use vstd::prelude::*;

verus! {

/// Highest note number of the MIDI range.
pub const MAX_MIDI_NOTE: u8 = 127;

/// Note number of the concert pitch A4 (440 Hz).
pub const A4_MIDI_NOTE: u8 = 69;

/// A note of the MIDI range `0..=127`.
#[derive(Clone, Copy, Debug, PartialEq, Eq, Structural)]
pub struct MidiNote(u8);

impl MidiNote {
    /// The note number.
    pub closed spec fn number(self) -> int {
        self.0 as int
    }

    #[verifier::type_invariant]
    spec fn in_range(self) -> bool {
        self.0 <= MAX_MIDI_NOTE
    }

    /// Makes the note with number `note`, which must not exceed 127.
    pub fn new(note: u8) -> (midi: Self)
        requires
            note <= MAX_MIDI_NOTE,
        ensures
            midi.number() == note,
    {
        Self(note)
    }

    /// The note number, at most 127.
    pub fn value(&self) -> (note: u8)
        ensures
            note == self.number(),
            note <= MAX_MIDI_NOTE,
    {
        proof {
            use_type_invariant(self);
        }
        self.0
    }

    /// Distance from A4 in semitones, negative below it. In equal temperament the
    /// note sounds at `440 * 2^(d / 12)` Hz for this distance `d`.
    pub fn semitones_from_a4(&self) -> (d: i8)
        ensures
            d == self.number() - A4_MIDI_NOTE,
    {
        proof {
            use_type_invariant(self);
        }
        if self.0 >= A4_MIDI_NOTE {
            (self.0 - A4_MIDI_NOTE) as i8
        } else {
            -((A4_MIDI_NOTE - self.0) as i8)
        }
    }
}

} // verus!
