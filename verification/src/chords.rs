//! Chord identities (`ChordName`: a root pitch class plus a quality), their
//! textual parsing, and the chord spelling table mapping each identity to its
//! three chord tones.

use vstd::prelude::*;
use crate::notes::{
    note_from_index, note_index, parse_note_prefix, spec_note_prefix, NoteName,
};

verus! {

/// Error returned when a string does not name a chord.
#[derive(Debug, Clone)]
pub struct ChordNameError(pub String);

/// The closed set of chord qualities the library knows.
#[derive(Debug, Clone, Copy, PartialEq, Eq, Hash, Structural)]
pub enum ChordQuality {
    Maj,
    Min,
    Aug,
    Dim,
    Sus2,
    Sus4,
    MajSev,
    MinSev,
    Sev,
    SevSus,
}

/// A chord identity: a root pitch class tagged with a quality.
#[derive(Debug, Clone, Copy, PartialEq, Eq, Hash, Structural)]
pub enum ChordName {
    C(ChordQuality),
    CSharpDFlat(ChordQuality),
    D(ChordQuality),
    DSharpEFlat(ChordQuality),
    E(ChordQuality),
    F(ChordQuality),
    FSharpGFlat(ChordQuality),
    G(ChordQuality),
    GSharpAFlat(ChordQuality),
    A(ChordQuality),
    ASharpBFlat(ChordQuality),
    B(ChordQuality),
}

/// The root pitch class of a chord identity.
pub open spec fn spec_root_of(c: ChordName) -> NoteName {
    match c {
        ChordName::C(_) => NoteName::C,
        ChordName::CSharpDFlat(_) => NoteName::CSharpDFlat,
        ChordName::D(_) => NoteName::D,
        ChordName::DSharpEFlat(_) => NoteName::DSharpEFlat,
        ChordName::E(_) => NoteName::E,
        ChordName::F(_) => NoteName::F,
        ChordName::FSharpGFlat(_) => NoteName::FSharpGFlat,
        ChordName::G(_) => NoteName::G,
        ChordName::GSharpAFlat(_) => NoteName::GSharpAFlat,
        ChordName::A(_) => NoteName::A,
        ChordName::ASharpBFlat(_) => NoteName::ASharpBFlat,
        ChordName::B(_) => NoteName::B,
    }
}

/// The quality of a chord identity.
pub open spec fn spec_quality_of(c: ChordName) -> ChordQuality {
    match c {
        ChordName::C(q) => q,
        ChordName::CSharpDFlat(q) => q,
        ChordName::D(q) => q,
        ChordName::DSharpEFlat(q) => q,
        ChordName::E(q) => q,
        ChordName::F(q) => q,
        ChordName::FSharpGFlat(q) => q,
        ChordName::G(q) => q,
        ChordName::GSharpAFlat(q) => q,
        ChordName::A(q) => q,
        ChordName::ASharpBFlat(q) => q,
        ChordName::B(q) => q,
    }
}

/// The chord identity with a given root and quality.
pub open spec fn spec_chord_name(n: NoteName, q: ChordQuality) -> ChordName {
    match n {
        NoteName::C => ChordName::C(q),
        NoteName::CSharpDFlat => ChordName::CSharpDFlat(q),
        NoteName::D => ChordName::D(q),
        NoteName::DSharpEFlat => ChordName::DSharpEFlat(q),
        NoteName::E => ChordName::E(q),
        NoteName::F => ChordName::F(q),
        NoteName::FSharpGFlat => ChordName::FSharpGFlat(q),
        NoteName::G => ChordName::G(q),
        NoteName::GSharpAFlat => ChordName::GSharpAFlat(q),
        NoteName::A => ChordName::A(q),
        NoteName::ASharpBFlat => ChordName::ASharpBFlat(q),
        NoteName::B => ChordName::B(q),
    }
}

impl ChordName {
    /// The root pitch class of this chord.
    pub fn get_root(&self) -> (n: NoteName)
        ensures
            n == spec_root_of(*self),
    {
        match self {
            ChordName::C(_) => NoteName::C,
            ChordName::CSharpDFlat(_) => NoteName::CSharpDFlat,
            ChordName::D(_) => NoteName::D,
            ChordName::DSharpEFlat(_) => NoteName::DSharpEFlat,
            ChordName::E(_) => NoteName::E,
            ChordName::F(_) => NoteName::F,
            ChordName::FSharpGFlat(_) => NoteName::FSharpGFlat,
            ChordName::G(_) => NoteName::G,
            ChordName::GSharpAFlat(_) => NoteName::GSharpAFlat,
            ChordName::A(_) => NoteName::A,
            ChordName::ASharpBFlat(_) => NoteName::ASharpBFlat,
            ChordName::B(_) => NoteName::B,
        }
    }

    /// The quality of this chord.
    pub fn get_quality(&self) -> (q: ChordQuality)
        ensures
            q == spec_quality_of(*self),
    {
        match self {
            ChordName::C(q) => *q,
            ChordName::CSharpDFlat(q) => *q,
            ChordName::D(q) => *q,
            ChordName::DSharpEFlat(q) => *q,
            ChordName::E(q) => *q,
            ChordName::F(q) => *q,
            ChordName::FSharpGFlat(q) => *q,
            ChordName::G(q) => *q,
            ChordName::GSharpAFlat(q) => *q,
            ChordName::A(q) => *q,
            ChordName::ASharpBFlat(q) => *q,
            ChordName::B(q) => *q,
        }
    }
}

/// The chord identity with a given root and quality.
pub fn create_chord_name(root: &NoteName, quality: &ChordQuality) -> (c: ChordName)
    ensures
        c == spec_chord_name(*root, *quality),
{
    match root {
        NoteName::C => ChordName::C(*quality),
        NoteName::CSharpDFlat => ChordName::CSharpDFlat(*quality),
        NoteName::D => ChordName::D(*quality),
        NoteName::DSharpEFlat => ChordName::DSharpEFlat(*quality),
        NoteName::E => ChordName::E(*quality),
        NoteName::F => ChordName::F(*quality),
        NoteName::FSharpGFlat => ChordName::FSharpGFlat(*quality),
        NoteName::G => ChordName::G(*quality),
        NoteName::GSharpAFlat => ChordName::GSharpAFlat(*quality),
        NoteName::A => ChordName::A(*quality),
        NoteName::ASharpBFlat => ChordName::ASharpBFlat(*quality),
        NoteName::B => ChordName::B(*quality),
    }
}

/// The quality named by a chord-symbol suffix: the empty suffix is major,
/// and the others are the common symbols (`maj`, `M`, `m`, `min`, `-`, `aug`,
/// `+`, `dim`, `Ø`, `°`, `sus2`, `s2`, `sus4`, `sus`, `s4`, `maj7`, `M7`,
/// `^7`, `min7`, `m7`, `-7`, `7`, `dom7`, `7sus4`, `7s4`, `7s11`, `11`,
/// `sus11`).
pub open spec fn spec_quality_suffix(t: Seq<char>) -> Option<ChordQuality> {
    if t.len() == 0 {
        Some(ChordQuality::Maj)
    } else if t.len() == 1 {
        if t[0] == 'M' {
            Some(ChordQuality::Maj)
        } else if t[0] == 'm' || t[0] == '-' {
            Some(ChordQuality::Min)
        } else if t[0] == '+' {
            Some(ChordQuality::Aug)
        } else if t[0] == 'Ø' || t[0] == '°' {
            Some(ChordQuality::Dim)
        } else if t[0] == '7' {
            Some(ChordQuality::Sev)
        } else {
            None
        }
    } else if t.len() == 2 {
        if t[0] == 'M' && t[1] == '7' {
            Some(ChordQuality::MajSev)
        } else if (t[0] == 'm' || t[0] == '-') && t[1] == '7' {
            Some(ChordQuality::MinSev)
        } else if t[0] == '^' && t[1] == '7' {
            Some(ChordQuality::MajSev)
        } else if t[0] == 's' && t[1] == '2' {
            Some(ChordQuality::Sus2)
        } else if t[0] == 's' && t[1] == '4' {
            Some(ChordQuality::Sus4)
        } else if t[0] == '1' && t[1] == '1' {
            Some(ChordQuality::SevSus)
        } else {
            None
        }
    } else if t.len() == 3 {
        if t[0] == 'm' && t[1] == 'a' && t[2] == 'j' {
            Some(ChordQuality::Maj)
        } else if t[0] == 'm' && t[1] == 'i' && t[2] == 'n' {
            Some(ChordQuality::Min)
        } else if t[0] == 'a' && t[1] == 'u' && t[2] == 'g' {
            Some(ChordQuality::Aug)
        } else if t[0] == 'd' && t[1] == 'i' && t[2] == 'm' {
            Some(ChordQuality::Dim)
        } else if t[0] == 's' && t[1] == 'u' && t[2] == 's' {
            Some(ChordQuality::Sus4)
        } else if t[0] == '7' && t[1] == 's' && t[2] == '4' {
            Some(ChordQuality::SevSus)
        } else {
            None
        }
    } else if t.len() == 4 {
        if t[0] == 'm' && t[1] == 'a' && t[2] == 'j' && t[3] == '7' {
            Some(ChordQuality::MajSev)
        } else if t[0] == 'm' && t[1] == 'i' && t[2] == 'n' && t[3] == '7' {
            Some(ChordQuality::MinSev)
        } else if t[0] == 'd' && t[1] == 'o' && t[2] == 'm' && t[3] == '7' {
            Some(ChordQuality::Sev)
        } else if t[0] == 's' && t[1] == 'u' && t[2] == 's' && t[3] == '2' {
            Some(ChordQuality::Sus2)
        } else if t[0] == 's' && t[1] == 'u' && t[2] == 's' && t[3] == '4' {
            Some(ChordQuality::Sus4)
        } else if t[0] == '7' && t[1] == 's' && t[2] == '1' && t[3] == '1' {
            Some(ChordQuality::SevSus)
        } else {
            None
        }
    } else if t.len() == 5 {
        if t[0] == 's' && t[1] == 'u' && t[2] == 's' && t[3] == '1' && t[4] == '1' {
            Some(ChordQuality::SevSus)
        } else if t[0] == '7' && t[1] == 's' && t[2] == 'u' && t[3] == 's' && t[4] == '4' {
            Some(ChordQuality::SevSus)
        } else {
            None
        }
    } else {
        None
    }
}

/// A whole string names a chord when it is a root spelling followed by a
/// quality suffix. A bare combined root spelling such as `"C#/Db"` does not
/// name a chord on its own, though `"C#"` and `"Db"` do.
pub open spec fn spec_parse_chord(s: Seq<char>) -> Option<ChordName> {
    match spec_note_prefix(s) {
        None => None,
        Some((n, k)) => {
            if k == 5 && s.len() == 5 {
                None
            } else {
                match spec_quality_suffix(s.subrange(k, s.len() as int)) {
                    Some(q) => Some(spec_chord_name(n, q)),
                    None => None,
                }
            }
        },
    }
}

/// Reads a quality suffix; mirrors `spec_quality_suffix`.
fn quality_of_suffix(t: &str) -> (r: Option<ChordQuality>)
    ensures
        r == spec_quality_suffix(t@),
{
    let m = t.unicode_len();
    if m == 0 {
        Some(ChordQuality::Maj)
    } else if m == 1 {
        let c0 = t.get_char(0);
        if c0 == 'M' {
            Some(ChordQuality::Maj)
        } else if c0 == 'm' || c0 == '-' {
            Some(ChordQuality::Min)
        } else if c0 == '+' {
            Some(ChordQuality::Aug)
        } else if c0 == 'Ø' || c0 == '°' {
            Some(ChordQuality::Dim)
        } else if c0 == '7' {
            Some(ChordQuality::Sev)
        } else {
            None
        }
    } else if m == 2 {
        let c0 = t.get_char(0);
        let c1 = t.get_char(1);
        if c0 == 'M' && c1 == '7' {
            Some(ChordQuality::MajSev)
        } else if (c0 == 'm' || c0 == '-') && c1 == '7' {
            Some(ChordQuality::MinSev)
        } else if c0 == '^' && c1 == '7' {
            Some(ChordQuality::MajSev)
        } else if c0 == 's' && c1 == '2' {
            Some(ChordQuality::Sus2)
        } else if c0 == 's' && c1 == '4' {
            Some(ChordQuality::Sus4)
        } else if c0 == '1' && c1 == '1' {
            Some(ChordQuality::SevSus)
        } else {
            None
        }
    } else if m == 3 {
        let c0 = t.get_char(0);
        let c1 = t.get_char(1);
        let c2 = t.get_char(2);
        if c0 == 'm' && c1 == 'a' && c2 == 'j' {
            Some(ChordQuality::Maj)
        } else if c0 == 'm' && c1 == 'i' && c2 == 'n' {
            Some(ChordQuality::Min)
        } else if c0 == 'a' && c1 == 'u' && c2 == 'g' {
            Some(ChordQuality::Aug)
        } else if c0 == 'd' && c1 == 'i' && c2 == 'm' {
            Some(ChordQuality::Dim)
        } else if c0 == 's' && c1 == 'u' && c2 == 's' {
            Some(ChordQuality::Sus4)
        } else if c0 == '7' && c1 == 's' && c2 == '4' {
            Some(ChordQuality::SevSus)
        } else {
            None
        }
    } else if m == 4 {
        let c0 = t.get_char(0);
        let c1 = t.get_char(1);
        let c2 = t.get_char(2);
        let c3 = t.get_char(3);
        if c0 == 'm' && c1 == 'a' && c2 == 'j' && c3 == '7' {
            Some(ChordQuality::MajSev)
        } else if c0 == 'm' && c1 == 'i' && c2 == 'n' && c3 == '7' {
            Some(ChordQuality::MinSev)
        } else if c0 == 'd' && c1 == 'o' && c2 == 'm' && c3 == '7' {
            Some(ChordQuality::Sev)
        } else if c0 == 's' && c1 == 'u' && c2 == 's' && c3 == '2' {
            Some(ChordQuality::Sus2)
        } else if c0 == 's' && c1 == 'u' && c2 == 's' && c3 == '4' {
            Some(ChordQuality::Sus4)
        } else if c0 == '7' && c1 == 's' && c2 == '1' && c3 == '1' {
            Some(ChordQuality::SevSus)
        } else {
            None
        }
    } else if m == 5 {
        let c0 = t.get_char(0);
        let c1 = t.get_char(1);
        let c2 = t.get_char(2);
        let c3 = t.get_char(3);
        let c4 = t.get_char(4);
        if c0 == 's' && c1 == 'u' && c2 == 's' && c3 == '1' && c4 == '1' {
            Some(ChordQuality::SevSus)
        } else if c0 == '7' && c1 == 's' && c2 == 'u' && c3 == 's' && c4 == '4' {
            Some(ChordQuality::SevSus)
        } else {
            None
        }
    } else {
        None
    }
}

impl ChordName {
    /// Parses a chord symbol, such as `"C"`, `"C#min7"`, `"Db+"` or
    /// `"F#/Gb7sus4"`.
    pub fn try_from(value: &str) -> (r: Result<ChordName, ChordNameError>)
        ensures
            match r {
                Ok(c) => spec_parse_chord(value@) == Some(c),
                Err(e) => spec_parse_chord(value@) is None && e.0@ == value@,
            },
    {
        let len = value.unicode_len();
        match parse_note_prefix(value) {
            Some(p) => {
                if p.1 == 5 && len == 5 {
                    return Err(ChordNameError(value.to_owned()));
                }
                let rest = value.substring_char(p.1, len);
                match quality_of_suffix(rest) {
                    Some(q) => Ok(create_chord_name(&p.0, &q)),
                    None => Err(ChordNameError(value.to_owned())),
                }
            },
            None => Err(ChordNameError(value.to_owned())),
        }
    }
}

/// One sounding member of a chord: a pitch class tagged with its
/// scale-degree role within the chord.
#[derive(Debug, Clone, Copy, PartialEq, Eq, Hash, Structural)]
pub enum ChordTone {
    Root(NoteName),
    Second(NoteName),
    Third(NoteName),
    Fourth(NoteName),
    Fifth(NoteName),
    Seventh(NoteName),
}

/// The scale-degree roles a chord tone can play.
#[derive(Debug, Clone, Copy, PartialEq, Eq, Structural)]
pub enum ChordToneDegree {
    Root,
    Second,
    Third,
    Fourth,
    Fifth,
    Seventh,
}

/// The pitch class of a chord tone.
pub open spec fn spec_tone_note(t: ChordTone) -> NoteName {
    match t {
        ChordTone::Root(n) => n,
        ChordTone::Second(n) => n,
        ChordTone::Third(n) => n,
        ChordTone::Fourth(n) => n,
        ChordTone::Fifth(n) => n,
        ChordTone::Seventh(n) => n,
    }
}

/// The role of a chord tone.
pub open spec fn spec_tone_degree(t: ChordTone) -> ChordToneDegree {
    match t {
        ChordTone::Root(_) => ChordToneDegree::Root,
        ChordTone::Second(_) => ChordToneDegree::Second,
        ChordTone::Third(_) => ChordToneDegree::Third,
        ChordTone::Fourth(_) => ChordToneDegree::Fourth,
        ChordTone::Fifth(_) => ChordToneDegree::Fifth,
        ChordTone::Seventh(_) => ChordToneDegree::Seventh,
    }
}

/// The chord tone with a given role and pitch class.
pub open spec fn spec_mk_tone(d: ChordToneDegree, n: NoteName) -> ChordTone {
    match d {
        ChordToneDegree::Root => ChordTone::Root(n),
        ChordToneDegree::Second => ChordTone::Second(n),
        ChordToneDegree::Third => ChordTone::Third(n),
        ChordToneDegree::Fourth => ChordTone::Fourth(n),
        ChordToneDegree::Fifth => ChordTone::Fifth(n),
        ChordToneDegree::Seventh => ChordTone::Seventh(n),
    }
}

impl ChordTone {
    /// The pitch class of this tone.
    pub fn note(&self) -> (n: &NoteName)
        ensures
            *n == spec_tone_note(*self),
    {
        match self {
            ChordTone::Root(n) => n,
            ChordTone::Second(n) => n,
            ChordTone::Third(n) => n,
            ChordTone::Fourth(n) => n,
            ChordTone::Fifth(n) => n,
            ChordTone::Seventh(n) => n,
        }
    }

    /// The role of this tone.
    pub fn get_tone_degree(&self) -> (d: ChordToneDegree)
        ensures
            d == spec_tone_degree(*self),
    {
        match self {
            ChordTone::Root(_) => ChordToneDegree::Root,
            ChordTone::Second(_) => ChordToneDegree::Second,
            ChordTone::Third(_) => ChordToneDegree::Third,
            ChordTone::Fourth(_) => ChordToneDegree::Fourth,
            ChordTone::Fifth(_) => ChordToneDegree::Fifth,
            ChordTone::Seventh(_) => ChordToneDegree::Seventh,
        }
    }
}

/// Semitone offsets of the second and third chord tone above the root.
pub open spec fn quality_offsets(q: ChordQuality) -> (int, int) {
    match q {
        ChordQuality::Maj => (4, 7),
        ChordQuality::Min => (3, 7),
        ChordQuality::Aug => (4, 8),
        ChordQuality::Dim => (3, 6),
        ChordQuality::Sus2 => (2, 7),
        ChordQuality::Sus4 => (5, 7),
        ChordQuality::MajSev => (4, 11),
        ChordQuality::MinSev => (3, 10),
        ChordQuality::Sev => (4, 10),
        ChordQuality::SevSus => (5, 10),
    }
}

/// Scale-degree roles of the second and third chord tone. Triads carry their
/// third and fifth; seventh chords carry their third (or fourth) and seventh.
pub open spec fn quality_roles(q: ChordQuality) -> (ChordToneDegree, ChordToneDegree) {
    match q {
        ChordQuality::Maj => (ChordToneDegree::Third, ChordToneDegree::Fifth),
        ChordQuality::Min => (ChordToneDegree::Third, ChordToneDegree::Fifth),
        ChordQuality::Aug => (ChordToneDegree::Third, ChordToneDegree::Fifth),
        ChordQuality::Dim => (ChordToneDegree::Third, ChordToneDegree::Fifth),
        ChordQuality::Sus2 => (ChordToneDegree::Second, ChordToneDegree::Fifth),
        ChordQuality::Sus4 => (ChordToneDegree::Fourth, ChordToneDegree::Fifth),
        ChordQuality::MajSev => (ChordToneDegree::Third, ChordToneDegree::Seventh),
        ChordQuality::MinSev => (ChordToneDegree::Third, ChordToneDegree::Seventh),
        ChordQuality::Sev => (ChordToneDegree::Third, ChordToneDegree::Seventh),
        ChordQuality::SevSus => (ChordToneDegree::Fourth, ChordToneDegree::Seventh),
    }
}

/// The pitch class `k` semitones above `n`, wrapping within the octave.
pub open spec fn pc_add(n: NoteName, k: int) -> NoteName {
    let j = note_index(n) + k;
    note_from_index(
        if j < 12 {
            j
        } else {
            j - 12
        },
    )
}

/// The three chord tones of a chord identity: the root, then the two tones
/// given by the quality's offsets and roles.
pub open spec fn spec_spelling_of(name: ChordName) -> Seq<ChordTone> {
    let r = spec_root_of(name);
    let q = spec_quality_of(name);
    seq![
        ChordTone::Root(r),
        spec_mk_tone(quality_roles(q).0, pc_add(r, quality_offsets(q).0)),
        spec_mk_tone(quality_roles(q).1, pc_add(r, quality_offsets(q).1)),
    ]
}

/// The three tones of any chord have three pairwise distinct pitch classes,
/// and the first tone is the chord's root.
pub proof fn lemma_spelling_distinct(name: ChordName)
    ensures
        spec_spelling_of(name).len() == 3,
        spec_tone_note(spec_spelling_of(name)[0]) == spec_root_of(name),
        spec_tone_note(spec_spelling_of(name)[0]) != spec_tone_note(spec_spelling_of(name)[1]),
        spec_tone_note(spec_spelling_of(name)[0]) != spec_tone_note(spec_spelling_of(name)[2]),
        spec_tone_note(spec_spelling_of(name)[1]) != spec_tone_note(spec_spelling_of(name)[2]),
{
    let r = spec_root_of(name);
    let q = spec_quality_of(name);
    let i = note_index(r);
    let o1 = quality_offsets(q).0;
    let o2 = quality_offsets(q).1;
    assert(0 <= i < 12);
    assert(2 <= o1 < o2 <= 11);
    let j1 = if i + o1 < 12 {
        i + o1
    } else {
        i + o1 - 12
    };
    let j2 = if i + o2 < 12 {
        i + o2
    } else {
        i + o2 - 12
    };
    crate::notes::lemma_note_index_roundtrip(j1);
    crate::notes::lemma_note_index_roundtrip(j2);
    assert(j1 != i && j2 != i && j1 != j2);
}

/// A chord identity together with its ordered chord tones.
#[derive(Debug, Clone, PartialEq)]
pub struct ChordSpelling {
    pub name: ChordName,
    pub spelling: Vec<ChordTone>,
}

impl ChordSpelling {
    /// Assembles a spelling from a root, a quality, and the pitch classes of
    /// the chord's tones in order (the root first). The quality decides which
    /// roles the second and third tone carry.
    pub fn new(root: &NoteName, quality: &ChordQuality, notes: &Vec<NoteName>) -> (r:
        ChordSpelling)
        requires
            notes@.len() >= 3,
        ensures
            r.name == spec_chord_name(*root, *quality),
            r.spelling@ == seq![
                ChordTone::Root(*root),
                spec_mk_tone(quality_roles(*quality).0, notes@[1]),
                spec_mk_tone(quality_roles(*quality).1, notes@[2]),
            ],
    {
        let name = create_chord_name(root, quality);
        let mut spelling: Vec<ChordTone> = Vec::new();
        spelling.push(ChordTone::Root(*root));
        match quality {
            ChordQuality::Maj | ChordQuality::Min | ChordQuality::Aug | ChordQuality::Dim => {
                spelling.push(ChordTone::Third(notes[1]));
                spelling.push(ChordTone::Fifth(notes[2]));
            },
            ChordQuality::Sus2 => {
                spelling.push(ChordTone::Second(notes[1]));
                spelling.push(ChordTone::Fifth(notes[2]));
            },
            ChordQuality::Sus4 => {
                spelling.push(ChordTone::Fourth(notes[1]));
                spelling.push(ChordTone::Fifth(notes[2]));
            },
            ChordQuality::MajSev | ChordQuality::MinSev | ChordQuality::Sev => {
                spelling.push(ChordTone::Third(notes[1]));
                spelling.push(ChordTone::Seventh(notes[2]));
            },
            ChordQuality::SevSus => {
                spelling.push(ChordTone::Fourth(notes[1]));
                spelling.push(ChordTone::Seventh(notes[2]));
            },
        }
        let r = ChordSpelling { name, spelling };
        proof {
            assert(r.spelling@ =~= seq![
                ChordTone::Root(*root),
                spec_mk_tone(quality_roles(*quality).0, notes@[1]),
                spec_mk_tone(quality_roles(*quality).1, notes@[2]),
            ]);
        }
        r
    }

    /// The spelling of a chord identity, from the library's spelling table.
    pub fn of_chord(chord: &ChordName) -> (r: ChordSpelling)
        ensures
            r.name == *chord,
            r.spelling@ == spec_spelling_of(*chord),
    {
        let root = chord.get_root();
        let q = chord.get_quality();
        let offs: (usize, usize) = match q {
            ChordQuality::Maj => (4, 7),
            ChordQuality::Min => (3, 7),
            ChordQuality::Aug => (4, 8),
            ChordQuality::Dim => (3, 6),
            ChordQuality::Sus2 => (2, 7),
            ChordQuality::Sus4 => (5, 7),
            ChordQuality::MajSev => (4, 11),
            ChordQuality::MinSev => (3, 10),
            ChordQuality::Sev => (4, 10),
            ChordQuality::SevSus => (5, 10),
        };
        let t1 = transposed(&root, offs.0);
        let t2 = transposed(&root, offs.1);
        let notes: Vec<NoteName> = vec![root, t1, t2];
        let r = ChordSpelling::new(&root, &q, &notes);
        proof {
            assert(spec_chord_name(spec_root_of(*chord), spec_quality_of(*chord)) == *chord);
            assert(r.spelling@ =~= spec_spelling_of(*chord));
        }
        r
    }

    /// The chord identity this spelling belongs to.
    pub fn name(&self) -> (n: &ChordName)
        ensures
            *n == self.name,
    {
        &self.name
    }

    /// The ordered chord tones.
    pub fn spelling(&self) -> (s: &Vec<ChordTone>)
        ensures
            s@ == self.spelling@,
    {
        &self.spelling
    }
}

/// The pitch class `off` semitones above `root`, wrapping within the octave.
fn transposed(root: &NoteName, off: usize) -> (n: NoteName)
    requires
        off < 12,
    ensures
        n == pc_add(*root, off as int),
{
    let i = root.index();
    let j = i + off;
    let j = if j >= 12 {
        j - 12
    } else {
        j
    };
    NoteName::from_index(j)
}

} // verus!
