use music_baux::{
    create_chord_name, generate_enharmonics, generate_relative_keys, ChordName, ChordQuality,
    ChordSpelling, ChordTone, ChordToneDegree, MusicTheoryBaux, NoteName, NoteOct,
};

#[test]
fn parse_chord_qualities_on_c() {
    assert_eq!(ChordName::try_from("C").unwrap(), ChordName::C(ChordQuality::Maj));
    assert_eq!(ChordName::try_from("Cmaj").unwrap(), ChordName::C(ChordQuality::Maj));
    assert_eq!(ChordName::try_from("CM").unwrap(), ChordName::C(ChordQuality::Maj));
    assert_eq!(ChordName::try_from("Cm").unwrap(), ChordName::C(ChordQuality::Min));
    assert_eq!(ChordName::try_from("Cmin").unwrap(), ChordName::C(ChordQuality::Min));
    assert_eq!(ChordName::try_from("C-").unwrap(), ChordName::C(ChordQuality::Min));
    assert_eq!(ChordName::try_from("Caug").unwrap(), ChordName::C(ChordQuality::Aug));
    assert_eq!(ChordName::try_from("C+").unwrap(), ChordName::C(ChordQuality::Aug));
    assert_eq!(ChordName::try_from("Cdim").unwrap(), ChordName::C(ChordQuality::Dim));
    assert_eq!(ChordName::try_from("C°").unwrap(), ChordName::C(ChordQuality::Dim));
    assert_eq!(ChordName::try_from("CØ").unwrap(), ChordName::C(ChordQuality::Dim));
    assert_eq!(ChordName::try_from("Csus2").unwrap(), ChordName::C(ChordQuality::Sus2));
    assert_eq!(ChordName::try_from("Cs2").unwrap(), ChordName::C(ChordQuality::Sus2));
    assert_eq!(ChordName::try_from("Csus4").unwrap(), ChordName::C(ChordQuality::Sus4));
    assert_eq!(ChordName::try_from("Csus").unwrap(), ChordName::C(ChordQuality::Sus4));
    assert_eq!(ChordName::try_from("Cmaj7").unwrap(), ChordName::C(ChordQuality::MajSev));
    assert_eq!(ChordName::try_from("C^7").unwrap(), ChordName::C(ChordQuality::MajSev));
    assert_eq!(ChordName::try_from("Cmin7").unwrap(), ChordName::C(ChordQuality::MinSev));
    assert_eq!(ChordName::try_from("Cm7").unwrap(), ChordName::C(ChordQuality::MinSev));
    assert_eq!(ChordName::try_from("C-7").unwrap(), ChordName::C(ChordQuality::MinSev));
    assert_eq!(ChordName::try_from("C7").unwrap(), ChordName::C(ChordQuality::Sev));
    assert_eq!(ChordName::try_from("Cdom7").unwrap(), ChordName::C(ChordQuality::Sev));
    assert_eq!(ChordName::try_from("C7sus4").unwrap(), ChordName::C(ChordQuality::SevSus));
    assert_eq!(ChordName::try_from("C7s4").unwrap(), ChordName::C(ChordQuality::SevSus));
    assert_eq!(ChordName::try_from("C7s11").unwrap(), ChordName::C(ChordQuality::SevSus));
    assert_eq!(ChordName::try_from("C11").unwrap(), ChordName::C(ChordQuality::SevSus));
    assert_eq!(ChordName::try_from("Csus11").unwrap(), ChordName::C(ChordQuality::SevSus));
}

#[test]
fn parse_chord_accidental_roots() {
    assert_eq!(
        ChordName::try_from("C#/Dbmaj7").unwrap(),
        ChordName::CSharpDFlat(ChordQuality::MajSev)
    );
    assert_eq!(ChordName::try_from("Db-7").unwrap(), ChordName::CSharpDFlat(ChordQuality::MinSev));
    assert_eq!(ChordName::try_from("Eb+").unwrap(), ChordName::DSharpEFlat(ChordQuality::Aug));
    assert_eq!(
        ChordName::try_from("F#/Gb7sus4").unwrap(),
        ChordName::FSharpGFlat(ChordQuality::SevSus)
    );
    assert_eq!(ChordName::try_from("Ab°").unwrap(), ChordName::GSharpAFlat(ChordQuality::Dim));
    assert_eq!(ChordName::try_from("A#m7").unwrap(), ChordName::ASharpBFlat(ChordQuality::MinSev));
    assert_eq!(ChordName::try_from("Bb").unwrap(), ChordName::ASharpBFlat(ChordQuality::Maj));
    assert_eq!(ChordName::try_from("B7").unwrap(), ChordName::B(ChordQuality::Sev));
}

#[test]
fn parse_chord_rejects_bad_symbols() {
    assert!(ChordName::try_from("Z").is_err());
    assert!(ChordName::try_from("").is_err());
    assert!(ChordName::try_from("Cmaj77").is_err());
    assert!(ChordName::try_from("Cx").is_err());
    assert!(ChordName::try_from("C#/Db").is_err());
    assert!(ChordName::try_from("maj7").is_err());
}

#[test]
fn chord_root_and_quality() {
    let c = ChordName::try_from("F#m7").unwrap();
    assert_eq!(c.get_root(), NoteName::FSharpGFlat);
    assert_eq!(c.get_quality(), ChordQuality::MinSev);
    assert_eq!(create_chord_name(&NoteName::FSharpGFlat, &ChordQuality::MinSev), c);
}

#[test]
fn spelling_of_triads() {
    let baux = MusicTheoryBaux::new();
    let sp = baux.get_chord_spelling(&ChordName::C(ChordQuality::Maj)).unwrap();
    assert_eq!(
        sp.spelling(),
        &vec![
            ChordTone::Root(NoteName::C),
            ChordTone::Third(NoteName::E),
            ChordTone::Fifth(NoteName::G),
        ]
    );
    let sp = baux.get_chord_spelling(&ChordName::A(ChordQuality::Min)).unwrap();
    assert_eq!(
        sp.spelling(),
        &vec![
            ChordTone::Root(NoteName::A),
            ChordTone::Third(NoteName::C),
            ChordTone::Fifth(NoteName::E),
        ]
    );
    let sp = baux.get_chord_spelling(&ChordName::C(ChordQuality::Dim)).unwrap();
    assert_eq!(
        sp.spelling(),
        &vec![
            ChordTone::Root(NoteName::C),
            ChordTone::Third(NoteName::DSharpEFlat),
            ChordTone::Fifth(NoteName::FSharpGFlat),
        ]
    );
    let sp = baux.get_chord_spelling(&ChordName::C(ChordQuality::Sus2)).unwrap();
    assert_eq!(
        sp.spelling(),
        &vec![
            ChordTone::Root(NoteName::C),
            ChordTone::Second(NoteName::D),
            ChordTone::Fifth(NoteName::G),
        ]
    );
}

#[test]
fn spelling_of_seventh_chords_has_three_distinct_classes() {
    let baux = MusicTheoryBaux::new();
    let sp = baux.get_chord_spelling(&ChordName::E(ChordQuality::MajSev)).unwrap();
    assert_eq!(
        sp.spelling(),
        &vec![
            ChordTone::Root(NoteName::E),
            ChordTone::Third(NoteName::GSharpAFlat),
            ChordTone::Seventh(NoteName::DSharpEFlat),
        ]
    );
    let sp = baux.get_chord_spelling(&ChordName::B(ChordQuality::Sev)).unwrap();
    assert_eq!(
        sp.spelling(),
        &vec![
            ChordTone::Root(NoteName::B),
            ChordTone::Third(NoteName::DSharpEFlat),
            ChordTone::Seventh(NoteName::A),
        ]
    );
    let sp = baux.get_chord_spelling(&ChordName::G(ChordQuality::SevSus)).unwrap();
    assert_eq!(
        sp.spelling(),
        &vec![
            ChordTone::Root(NoteName::G),
            ChordTone::Fourth(NoteName::C),
            ChordTone::Seventh(NoteName::F),
        ]
    );
    for q in [
        ChordQuality::Sus4,
        ChordQuality::MajSev,
        ChordQuality::MinSev,
        ChordQuality::Sev,
        ChordQuality::SevSus,
    ] {
        let sp = baux.get_chord_spelling(&ChordName::D(q)).unwrap();
        let tones = sp.spelling();
        assert_ne!(tones[0].note(), tones[1].note());
        assert_ne!(tones[0].note(), tones[2].note());
        assert_ne!(tones[1].note(), tones[2].note());
    }
}

#[test]
fn spelling_new_assigns_roles_by_quality() {
    let notes = vec![NoteName::G, NoteName::C, NoteName::F];
    let sp = ChordSpelling::new(&NoteName::G, &ChordQuality::SevSus, &notes);
    assert_eq!(sp.name(), &ChordName::G(ChordQuality::SevSus));
    assert_eq!(sp.spelling()[0].get_tone_degree(), ChordToneDegree::Root);
    assert_eq!(sp.spelling()[1].get_tone_degree(), ChordToneDegree::Fourth);
    assert_eq!(sp.spelling()[2].get_tone_degree(), ChordToneDegree::Seventh);
    assert_eq!(sp.spelling()[1].note(), &NoteName::C);
}

#[test]
fn note_weights_count_semitones_from_c1() {
    let baux = MusicTheoryBaux::new();
    assert_eq!(baux.get_note_weight(&NoteOct::C(1)), Some(0));
    assert_eq!(baux.get_note_weight(&NoteOct::CSharpDFlat(1)), Some(1));
    assert_eq!(baux.get_note_weight(&NoteOct::C(2)), Some(12));
    assert_eq!(baux.get_note_weight(&NoteOct::E(3)), Some(28));
    assert_eq!(baux.get_note_weight(&NoteOct::B(8)), Some(95));
    assert_eq!(baux.get_note_weight(&NoteOct::C(0)), None);
    assert_eq!(baux.get_note_weight(&NoteOct::C(9)), None);
}

#[test]
fn weight_note_roundtrip() {
    let baux = MusicTheoryBaux::new();
    assert_eq!(baux.get_weight_note(&0), Some(NoteOct::C(1)));
    assert_eq!(baux.get_weight_note(&28), Some(NoteOct::E(3)));
    assert_eq!(baux.get_weight_note(&95), Some(NoteOct::B(8)));
    assert_eq!(baux.get_weight_note(&96), None);
    for w in 0..96usize {
        let n = baux.get_weight_note(&w).unwrap();
        assert_eq!(baux.get_note_weight(&n), Some(w));
    }
}

#[test]
fn enharmonics_map_accidentals_to_themselves() {
    let baux = MusicTheoryBaux::new();
    assert_eq!(baux.get_enharmonic(&NoteName::CSharpDFlat), Some(NoteName::CSharpDFlat));
    assert_eq!(baux.get_enharmonic(&NoteName::C), None);
    assert_eq!(baux.get_enharmonic(&NoteName::B), None);
    let pairs = generate_enharmonics();
    assert_eq!(pairs.len(), 5);
    for (a, b) in &pairs {
        assert_eq!(a, b);
    }
}

#[test]
fn relative_keys_table() {
    let pairs = generate_relative_keys();
    assert_eq!(pairs.len(), 12);
    assert_eq!(pairs[0], (NoteName::C, NoteName::A));
    assert_eq!(pairs[2], (NoteName::D, NoteName::B));
    assert_eq!(pairs[10], (NoteName::ASharpBFlat, NoteName::G));
    assert_eq!(pairs[11], (NoteName::B, NoteName::GSharpAFlat));
}
