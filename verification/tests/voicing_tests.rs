use music_baux::{
    from_input, ChordName, ChordQuality, ChordSpelling, ChordVoice, ChordVoicing,
    ChordVoicingError, MusicTheoryBaux, NoteName, NoteOct,
};

fn classes_of(v: &ChordVoicing) -> [NoteName; 3] {
    let (a, b, c) = v.voices();
    [a.note_oct().note_name(), b.note_oct().note_name(), c.note_oct().note_name()]
}

fn assert_distinct_classes(v: &ChordVoicing) {
    let cl = classes_of(v);
    assert_ne!(cl[0], cl[1]);
    assert_ne!(cl[0], cl[2]);
    assert_ne!(cl[1], cl[2]);
}

#[test]
fn default_voicing_is_c_major_triad() {
    let v = ChordVoicing::default();
    assert_eq!(v.chord_name(), ChordName::C(ChordQuality::Maj));
    assert_eq!(v.quality(), ChordQuality::Maj);
    assert_eq!(v.root(), NoteOct::C(3));
    assert_eq!(
        v.voices(),
        &(
            ChordVoice::Root(NoteOct::C(3)),
            ChordVoice::Third(NoteOct::E(3)),
            ChordVoice::Fifth(NoteOct::G(3)),
        )
    );
    assert_eq!(v.note_weights(), &vec![24, 28, 31]);
    assert_distinct_classes(&v);
}

#[test]
fn from_identity_with_root_octave_three() {
    // root octave 3, the other voices defaulted to 4
    let v = from_input("Cmaj", Some(3), None, None).unwrap();
    assert_eq!(v.chord_name(), ChordName::C(ChordQuality::Maj));
    assert_eq!(v.root(), NoteOct::C(3));
    assert_eq!(
        v.voices(),
        &(
            ChordVoice::Root(NoteOct::C(3)),
            ChordVoice::Third(NoteOct::E(4)),
            ChordVoice::Fifth(NoteOct::G(4)),
        )
    );
    assert_distinct_classes(&v);
}

#[test]
fn from_identity_accepts_all_octaves_in_range() {
    for oct in 1..=8usize {
        let v = from_input("Gm7", Some(oct), Some(oct), Some(oct)).unwrap();
        assert_eq!(v.root(), NoteOct::G(oct));
        assert_distinct_classes(&v);
    }
}

#[test]
fn from_identity_rejects_out_of_range_octaves() {
    match from_input("Cmaj", Some(9), None, None) {
        Err(ChordVoicingError::InvalidOct(o, slot)) => {
            assert_eq!(o, 9);
            assert_eq!(slot, "root");
        },
        other => panic!("expected octave-range error, got {:?}", other),
    }
    match from_input("Cmaj", Some(4), Some(0), None) {
        Err(ChordVoicingError::InvalidOct(o, slot)) => {
            assert_eq!(o, 0);
            assert_eq!(slot, "voice 1");
        },
        other => panic!("expected octave-range error, got {:?}", other),
    }
    match from_input("Cmaj", None, None, Some(12)) {
        Err(ChordVoicingError::InvalidOct(o, slot)) => {
            assert_eq!(o, 12);
            assert_eq!(slot, "voice 2");
        },
        other => panic!("expected octave-range error, got {:?}", other),
    }
}

#[test]
fn from_identity_rejects_unparsable_symbol() {
    match from_input("Z", None, None, None) {
        Err(ChordVoicingError::ParseChordName(s)) => assert_eq!(s, "Z"),
        other => panic!("expected parse error, got {:?}", other),
    }
    // the parse error wins over a bad octave
    match from_input("Z", Some(9), None, None) {
        Err(ChordVoicingError::ParseChordName(s)) => assert_eq!(s, "Z"),
        other => panic!("expected parse error, got {:?}", other),
    }
}

#[test]
fn voice_lead_default_to_a_minor() {
    let v = ChordVoicing::default();
    let next = ChordName::A(ChordQuality::Min);
    assert!(v.can_voice_lead(&next));
    let led = v.voice_lead(&next);
    assert_eq!(led.chord_name(), next);
    // minimal movement: C3 and E3 are kept, G3 moves up two semitones to A3
    assert_eq!(
        led.voices(),
        &(
            ChordVoice::Third(NoteOct::C(3)),
            ChordVoice::Fifth(NoteOct::E(3)),
            ChordVoice::Root(NoteOct::A(3)),
        )
    );
    assert_eq!(led.root(), NoteOct::A(3));
    assert_eq!(led.note_weights(), &vec![24, 28, 33]);
    assert_distinct_classes(&led);
}

#[test]
fn voice_lead_is_deterministic() {
    let v = from_input("Emaj7", Some(4), Some(5), Some(5)).unwrap();
    let next = ChordName::A(ChordQuality::MajSev);
    let a = v.voice_lead(&next);
    let b = v.voice_lead(&next);
    assert_eq!(a, b);
}

#[test]
fn voice_lead_to_same_chord_moves_nothing() {
    let v = ChordVoicing::default();
    let led = v.voice_lead(&ChordName::C(ChordQuality::Maj));
    assert_eq!(led.note_weights(), v.note_weights());
    assert_eq!(
        led.voices(),
        &(
            ChordVoice::Root(NoteOct::C(3)),
            ChordVoice::Third(NoteOct::E(3)),
            ChordVoice::Fifth(NoteOct::G(3)),
        )
    );
    let w = from_input("Bbm7", Some(3), Some(4), Some(4)).unwrap();
    let led = w.voice_lead(&ChordName::ASharpBFlat(ChordQuality::MinSev));
    assert_eq!(led.note_weights(), w.note_weights());
}

#[test]
fn four_chord_progression_never_doubles_a_pitch_class() {
    // Emaj7 -> Amaj7 -> C#min7 -> B7 -> Emaj7
    let start = from_input("Emaj7", Some(4), Some(5), Some(5)).unwrap();
    assert_eq!(
        start.voices(),
        &(
            ChordVoice::Root(NoteOct::E(4)),
            ChordVoice::Third(NoteOct::GSharpAFlat(5)),
            ChordVoice::Seventh(NoteOct::DSharpEFlat(5)),
        )
    );
    let progression = [
        ChordName::A(ChordQuality::MajSev),
        ChordName::CSharpDFlat(ChordQuality::MinSev),
        ChordName::B(ChordQuality::Sev),
        ChordName::E(ChordQuality::MajSev),
    ];
    let mut cur = start;
    for chord in &progression {
        assert!(cur.can_voice_lead(chord));
        cur = cur.voice_lead(chord);
        assert_eq!(cur.chord_name(), *chord);
        assert_distinct_classes(&cur);
    }
    // the final voicing of the round trip, fixed by the deterministic search
    assert_eq!(
        cur.voices(),
        &(
            ChordVoice::Seventh(NoteOct::DSharpEFlat(4)),
            ChordVoice::Root(NoteOct::E(6)),
            ChordVoice::Third(NoteOct::GSharpAFlat(4)),
        )
    );
    assert_eq!(cur.root(), NoteOct::E(6));
    assert_eq!(cur.note_weights(), &vec![39, 64, 44]);
}

#[test]
fn progression_steps_match_the_documented_search() {
    let start = from_input("Emaj7", Some(4), Some(5), Some(5)).unwrap();
    let a = start.voice_lead(&ChordName::A(ChordQuality::MajSev));
    assert_eq!(
        a.voices(),
        &(
            ChordVoice::Seventh(NoteOct::GSharpAFlat(4)),
            ChordVoice::Root(NoteOct::A(5)),
            ChordVoice::Third(NoteOct::CSharpDFlat(5)),
        )
    );
    assert_eq!(a.root(), NoteOct::A(5));
    let cs = a.voice_lead(&ChordName::CSharpDFlat(ChordQuality::MinSev));
    assert_eq!(
        cs.voices(),
        &(
            ChordVoice::Third(NoteOct::E(4)),
            ChordVoice::Seventh(NoteOct::B(5)),
            ChordVoice::Root(NoteOct::CSharpDFlat(5)),
        )
    );
    let b = cs.voice_lead(&ChordName::B(ChordQuality::Sev));
    assert_eq!(
        b.voices(),
        &(
            ChordVoice::Third(NoteOct::DSharpEFlat(4)),
            ChordVoice::Root(NoteOct::B(5)),
            ChordVoice::Seventh(NoteOct::A(4)),
        )
    );
}

#[test]
fn candidate_pool_pairs_every_tone_with_every_octave() {
    let v = ChordVoicing::default();
    let spelling = ChordSpelling::of_chord(&ChordName::A(ChordQuality::Min));
    let cands = v.get_new_voice_choices(&spelling);
    assert_eq!(cands.len(), 24);
    assert_eq!(cands[0], ChordVoice::Root(NoteOct::A(1)));
    assert_eq!(cands[7], ChordVoice::Root(NoteOct::A(8)));
    assert_eq!(cands[8], ChordVoice::Third(NoteOct::C(1)));
    assert_eq!(cands[23], ChordVoice::Fifth(NoteOct::E(8)));
}

#[test]
fn voice_lead_refused_when_no_real_configuration_exists() {
    // every candidate of G major seven lies above this low voicing except
    // two of its three classes, so no configuration of real candidates has
    // three distinct classes
    let v = from_input("C#maj7", Some(1), Some(1), Some(1)).unwrap();
    assert!(!v.can_voice_lead(&ChordName::G(ChordQuality::MajSev)));
    // a register nearby is fine
    assert!(v.can_voice_lead(&ChordName::A(ChordQuality::Min)));
}

#[test]
fn voice_lead_at_register_extremes_is_deterministic() {
    // a voicing straddling both ends of the range still leads, and the
    // documented first-minimum search fixes the outcome
    let v = from_input("Fdim", Some(1), Some(8), Some(8)).unwrap();
    let next = ChordName::CSharpDFlat(ChordQuality::MajSev);
    assert!(v.can_voice_lead(&next));
    let led = v.voice_lead(&next);
    assert_eq!(
        led.voices(),
        &(
            ChordVoice::Seventh(NoteOct::C(2)),
            ChordVoice::Third(NoteOct::F(8)),
            ChordVoice::Root(NoteOct::CSharpDFlat(8)),
        )
    );
    assert_eq!(led.note_weights(), &vec![12, 89, 85]);
    assert_distinct_classes(&led);
    // pushed entirely to the top octave, the same target runs out of
    // distinct-pitch-class configurations
    let top = from_input("Fdim", Some(8), Some(8), Some(8)).unwrap();
    assert!(!top.can_voice_lead(&next));
}

fn movement(baux: &MusicTheoryBaux, from: &ChordVoicing, to: &ChordVoicing) -> usize {
    let fw = from.note_weights();
    let tw = to.note_weights();
    (0..3).map(|i| fw[i].abs_diff(tw[i])).sum()
}

#[test]
fn engine_matches_exhaustive_search_in_mid_register() {
    // away from the register edges the engine's total movement equals the
    // optimum over every realization of the target: all candidate triples
    // with three distinct pitch classes
    let baux = MusicTheoryBaux::new();
    let starts = [
        ("Cmaj", (3, 3, 3)),
        ("Em7", (4, 4, 4)),
        ("F#sus2", (3, 4, 5)),
        ("Abmaj7", (2, 5, 6)),
    ];
    let targets = [
        "Amin", "Cmaj7", "C#min7", "Ddim", "E7", "Bb7sus4", "Gsus4", "F#maj7", "B7", "Ebaug",
    ];
    for (sym, (o0, o1, o2)) in starts {
        let start = from_input(sym, Some(o0), Some(o1), Some(o2)).unwrap();
        for target_sym in targets {
            let target = ChordName::try_from(target_sym).unwrap();
            assert!(start.can_voice_lead(&target));
            let led = start.voice_lead(&target);
            let engine_cost = movement(&baux, &start, &led);
            let spelling = ChordSpelling::of_chord(&target);
            let cands = start.get_new_voice_choices(&spelling);
            let old_w: Vec<usize> =
                start.note_weights().iter().copied().collect();
            let cand_info: Vec<(NoteName, usize)> = cands
                .iter()
                .map(|cv| {
                    let n = cv.note_oct();
                    (n.note_name(), baux.get_note_weight(n).unwrap())
                })
                .collect();
            let mut best: Option<usize> = None;
            for a in &cand_info {
                for b in &cand_info {
                    for c in &cand_info {
                        if a.0 != b.0 && a.0 != c.0 && b.0 != c.0 {
                            let cost = old_w[0].abs_diff(a.1) + old_w[1].abs_diff(b.1)
                                + old_w[2].abs_diff(c.1);
                            if best.map_or(true, |m| cost < m) {
                                best = Some(cost);
                            }
                        }
                    }
                }
            }
            assert_eq!(
                engine_cost,
                best.unwrap(),
                "engine not optimal leading {} to {}",
                sym,
                target_sym
            );
        }
    }
}

#[test]
fn baux_spelling_feeds_voice_lead() {
    let baux = MusicTheoryBaux::new();
    let sp = baux.get_chord_spelling(&ChordName::A(ChordQuality::Min)).unwrap();
    assert_eq!(sp.name(), &ChordName::A(ChordQuality::Min));
    let v = ChordVoicing::default();
    let cands = v.get_new_voice_choices(&sp);
    assert_eq!(cands.len(), 24);
}
