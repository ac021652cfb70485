use music_baux::{NoteName, NoteOct};

#[test]
fn parse_note_names_naturals() {
    assert_eq!(NoteName::try_from("C").unwrap(), NoteName::C);
    assert_eq!(NoteName::try_from("D").unwrap(), NoteName::D);
    assert_eq!(NoteName::try_from("E").unwrap(), NoteName::E);
    assert_eq!(NoteName::try_from("F").unwrap(), NoteName::F);
    assert_eq!(NoteName::try_from("G").unwrap(), NoteName::G);
    assert_eq!(NoteName::try_from("A").unwrap(), NoteName::A);
    assert_eq!(NoteName::try_from("B").unwrap(), NoteName::B);
}

#[test]
fn parse_note_names_accidentals() {
    assert_eq!(NoteName::try_from("C#").unwrap(), NoteName::CSharpDFlat);
    assert_eq!(NoteName::try_from("Db").unwrap(), NoteName::CSharpDFlat);
    assert_eq!(NoteName::try_from("C#/Db").unwrap(), NoteName::CSharpDFlat);
    assert_eq!(NoteName::try_from("D#").unwrap(), NoteName::DSharpEFlat);
    assert_eq!(NoteName::try_from("Eb").unwrap(), NoteName::DSharpEFlat);
    assert_eq!(NoteName::try_from("F#/Gb").unwrap(), NoteName::FSharpGFlat);
    assert_eq!(NoteName::try_from("G#/Ab").unwrap(), NoteName::GSharpAFlat);
    assert_eq!(NoteName::try_from("A#/Bb").unwrap(), NoteName::ASharpBFlat);
    assert_eq!(NoteName::try_from("Bb").unwrap(), NoteName::ASharpBFlat);
}

#[test]
fn parse_note_name_rejects_bad_spellings() {
    assert!(NoteName::try_from("H").is_err());
    assert!(NoteName::try_from("c").is_err());
    assert!(NoteName::try_from("").is_err());
    assert!(NoteName::try_from("Cb").is_err());
    assert!(NoteName::try_from("E#").is_err());
    assert!(NoteName::try_from("C#/Eb").is_err());
    assert!(NoteName::try_from("C# ").is_err());
}

#[test]
fn parse_note_oct_values() {
    assert_eq!(NoteOct::try_from("C1").unwrap(), NoteOct::C(1));
    assert_eq!(NoteOct::try_from("C#/Db4").unwrap(), NoteOct::CSharpDFlat(4));
    assert_eq!(NoteOct::try_from("Eb5").unwrap(), NoteOct::DSharpEFlat(5));
    assert_eq!(NoteOct::try_from("B8").unwrap(), NoteOct::B(8));
    assert_eq!(NoteOct::try_from("G#3").unwrap(), NoteOct::GSharpAFlat(3));
}

#[test]
fn parse_note_oct_rejects_out_of_range() {
    assert!(NoteOct::try_from("C0").is_err());
    assert!(NoteOct::try_from("C9").is_err());
    assert!(NoteOct::try_from("C").is_err());
    assert!(NoteOct::try_from("C44").is_err());
    assert!(NoteOct::try_from("H4").is_err());
}

#[test]
fn from_note_binds_octave() {
    assert_eq!(NoteOct::from_note(&NoteName::E, 3), NoteOct::E(3));
    assert_eq!(NoteOct::from_note(&NoteName::ASharpBFlat, 7), NoteOct::ASharpBFlat(7));
    assert_eq!(NoteOct::from_note(&NoteName::C, 1).note_name(), NoteName::C);
    assert_eq!(NoteOct::from_note(&NoteName::C, 1).octave(), 1);
}

#[test]
fn index_roundtrip() {
    assert_eq!(NoteName::C.index(), 0);
    assert_eq!(NoteName::B.index(), 11);
    for i in 0..12usize {
        assert_eq!(NoteName::from_index(i).index(), i);
    }
}
