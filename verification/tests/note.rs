use bevy_daw::utils::{A4_MIDI_NOTE, MAX_MIDI_NOTE};
use bevy_daw::MidiNote;

#[test]
fn concert_pitch_is_no_semitone_from_itself() {
    assert_eq!(MidiNote::new(69).semitones_from_a4(), 0);
    assert_eq!(A4_MIDI_NOTE, 69);
}

#[test]
fn lowest_and_highest_note() {
    assert_eq!(MidiNote::new(0).semitones_from_a4(), -69);
    assert_eq!(MidiNote::new(127).semitones_from_a4(), 58);
    assert_eq!(MAX_MIDI_NOTE, 127);
}

#[test]
fn octaves_are_twelve_semitones_apart() {
    assert_eq!(MidiNote::new(81).semitones_from_a4(), 12);
    assert_eq!(MidiNote::new(57).semitones_from_a4(), -12);
    assert_eq!(MidiNote::new(60).semitones_from_a4(), -9);
}

#[test]
fn note_keeps_its_number() {
    for n in 0..=127u8 {
        assert_eq!(MidiNote::new(n).value(), n);
    }
}

#[test]
fn frequency_of_a4_and_its_octaves() {
    let freq = |note: u8| 440.0_f32 * 2f32.powf(MidiNote::new(note).semitones_from_a4() as f32 / 12.0);
    assert_eq!(freq(69), 440.0);
    assert_eq!(freq(81), 880.0);
    assert_eq!(freq(57), 220.0);
    assert!((freq(60) - 261.6256).abs() < 1e-3);
}
