//! Pitch classes (`NoteName`), pitched notes (`NoteOct`), and the weight
//! metric: a strictly increasing ordinal index over the supported keyboard
//! range, one step per semitone, starting at 0 for the lowest supported note.

use vstd::prelude::*;

verus! {

/// Error returned when a string does not name a pitch class.
#[derive(Debug, Clone)]
pub struct NoteNameError(pub String);

/// One of the twelve pitch classes; enharmonic pairs share a variant.
#[derive(Debug, Clone, Copy, PartialEq, Eq, Hash, Structural)]
pub enum NoteName {
    C,
    CSharpDFlat,
    D,
    DSharpEFlat,
    E,
    F,
    FSharpGFlat,
    G,
    GSharpAFlat,
    A,
    ASharpBFlat,
    B,
}

/// Conventional ordering of the twelve pitch classes, `C` first.
pub open spec fn note_index(n: NoteName) -> int {
    match n {
        NoteName::C => 0,
        NoteName::CSharpDFlat => 1,
        NoteName::D => 2,
        NoteName::DSharpEFlat => 3,
        NoteName::E => 4,
        NoteName::F => 5,
        NoteName::FSharpGFlat => 6,
        NoteName::G => 7,
        NoteName::GSharpAFlat => 8,
        NoteName::A => 9,
        NoteName::ASharpBFlat => 10,
        NoteName::B => 11,
    }
}

/// Inverse of `note_index` on `0..12`.
pub open spec fn note_from_index(i: int) -> NoteName {
    if i == 0 {
        NoteName::C
    } else if i == 1 {
        NoteName::CSharpDFlat
    } else if i == 2 {
        NoteName::D
    } else if i == 3 {
        NoteName::DSharpEFlat
    } else if i == 4 {
        NoteName::E
    } else if i == 5 {
        NoteName::F
    } else if i == 6 {
        NoteName::FSharpGFlat
    } else if i == 7 {
        NoteName::G
    } else if i == 8 {
        NoteName::GSharpAFlat
    } else if i == 9 {
        NoteName::A
    } else if i == 10 {
        NoteName::ASharpBFlat
    } else {
        NoteName::B
    }
}

pub proof fn lemma_note_index_roundtrip(i: int)
    requires
        0 <= i < 12,
    ensures
        note_index(note_from_index(i)) == i,
{
}

impl NoteName {
    /// Position of this pitch class in the conventional `C`-first order.
    pub fn index(&self) -> (i: usize)
        ensures
            i == note_index(*self),
    {
        match self {
            NoteName::C => 0,
            NoteName::CSharpDFlat => 1,
            NoteName::D => 2,
            NoteName::DSharpEFlat => 3,
            NoteName::E => 4,
            NoteName::F => 5,
            NoteName::FSharpGFlat => 6,
            NoteName::G => 7,
            NoteName::GSharpAFlat => 8,
            NoteName::A => 9,
            NoteName::ASharpBFlat => 10,
            NoteName::B => 11,
        }
    }

    /// Pitch class at a given position of the conventional order.
    pub fn from_index(i: usize) -> (n: NoteName)
        requires
            i < 12,
        ensures
            n == note_from_index(i as int),
    {
        match i {
            0 => NoteName::C,
            1 => NoteName::CSharpDFlat,
            2 => NoteName::D,
            3 => NoteName::DSharpEFlat,
            4 => NoteName::E,
            5 => NoteName::F,
            6 => NoteName::FSharpGFlat,
            7 => NoteName::G,
            8 => NoteName::GSharpAFlat,
            9 => NoteName::A,
            10 => NoteName::ASharpBFlat,
            _ => NoteName::B,
        }
    }
}

/// Error returned when a string does not name a pitched note.
#[derive(Debug, Clone)]
pub struct NoteOctError(pub String);

/// A pitch class bound to an octave. Octaves range over `[1, 8]`; every
/// constructor of the library that accepts a caller-supplied octave enforces
/// that bound.
#[derive(Debug, Clone, Copy, PartialEq, Eq, Hash, Structural)]
pub enum NoteOct {
    C(usize),
    CSharpDFlat(usize),
    D(usize),
    DSharpEFlat(usize),
    E(usize),
    F(usize),
    FSharpGFlat(usize),
    G(usize),
    GSharpAFlat(usize),
    A(usize),
    ASharpBFlat(usize),
    B(usize),
}

/// The pitch class of a pitched note.
pub open spec fn spec_note_of(n: NoteOct) -> NoteName {
    match n {
        NoteOct::C(_) => NoteName::C,
        NoteOct::CSharpDFlat(_) => NoteName::CSharpDFlat,
        NoteOct::D(_) => NoteName::D,
        NoteOct::DSharpEFlat(_) => NoteName::DSharpEFlat,
        NoteOct::E(_) => NoteName::E,
        NoteOct::F(_) => NoteName::F,
        NoteOct::FSharpGFlat(_) => NoteName::FSharpGFlat,
        NoteOct::G(_) => NoteName::G,
        NoteOct::GSharpAFlat(_) => NoteName::GSharpAFlat,
        NoteOct::A(_) => NoteName::A,
        NoteOct::ASharpBFlat(_) => NoteName::ASharpBFlat,
        NoteOct::B(_) => NoteName::B,
    }
}

/// The octave of a pitched note.
pub open spec fn spec_oct_of(n: NoteOct) -> int {
    match n {
        NoteOct::C(o) => o as int,
        NoteOct::CSharpDFlat(o) => o as int,
        NoteOct::D(o) => o as int,
        NoteOct::DSharpEFlat(o) => o as int,
        NoteOct::E(o) => o as int,
        NoteOct::F(o) => o as int,
        NoteOct::FSharpGFlat(o) => o as int,
        NoteOct::G(o) => o as int,
        NoteOct::GSharpAFlat(o) => o as int,
        NoteOct::A(o) => o as int,
        NoteOct::ASharpBFlat(o) => o as int,
        NoteOct::B(o) => o as int,
    }
}

/// The pitched note with a given pitch class and octave.
pub open spec fn spec_mk_note(n: NoteName, o: int) -> NoteOct {
    match n {
        NoteName::C => NoteOct::C(o as usize),
        NoteName::CSharpDFlat => NoteOct::CSharpDFlat(o as usize),
        NoteName::D => NoteOct::D(o as usize),
        NoteName::DSharpEFlat => NoteOct::DSharpEFlat(o as usize),
        NoteName::E => NoteOct::E(o as usize),
        NoteName::F => NoteOct::F(o as usize),
        NoteName::FSharpGFlat => NoteOct::FSharpGFlat(o as usize),
        NoteName::G => NoteOct::G(o as usize),
        NoteName::GSharpAFlat => NoteOct::GSharpAFlat(o as usize),
        NoteName::A => NoteOct::A(o as usize),
        NoteName::ASharpBFlat => NoteOct::ASharpBFlat(o as usize),
        NoteName::B => NoteOct::B(o as usize),
    }
}

/// `note_from_index` inverts `note_index`, so distinct pitch classes have
/// distinct indices.
pub proof fn lemma_note_index_inverse(n: NoteName)
    ensures
        note_from_index(note_index(n)) == n,
{
}

/// Binding a pitch class to an octave in range keeps both parts, and the
/// weight is the octave offset plus the class index.
pub proof fn lemma_mk_note_facts(n: NoteName, o: int)
    requires
        1 <= o <= 8,
    ensures
        spec_note_of(spec_mk_note(n, o)) == n,
        spec_oct_of(spec_mk_note(n, o)) == o,
        spec_weight(spec_mk_note(n, o)) == (o - 1) * 12 + note_index(n),
{
}

/// A pitched note is well formed when its octave lies in `[1, 8]`.
pub open spec fn wf_note(n: NoteOct) -> bool {
    1 <= spec_oct_of(n) <= 8
}

/// The weight of a pitched note: its ordinal position over the keyboard
/// range, `C1 = 0`, one step per semitone up to `B8 = 95`. Weight is the
/// engine's sole distance metric.
pub open spec fn spec_weight(n: NoteOct) -> int {
    (spec_oct_of(n) - 1) * 12 + note_index(spec_note_of(n))
}

pub proof fn lemma_weight_bounds(n: NoteOct)
    requires
        wf_note(n),
    ensures
        0 <= spec_weight(n) < 96,
{
}

/// Two well-formed pitched notes with equal weight are the same note.
pub proof fn lemma_weight_injective(a: NoteOct, b: NoteOct)
    requires
        wf_note(a),
        wf_note(b),
        spec_weight(a) == spec_weight(b),
    ensures
        a == b,
{
    assert(spec_note_of(a) == spec_note_of(b) && spec_oct_of(a) == spec_oct_of(b));
    lemma_note_oct_parts(a, b);
}

/// A pitched note is determined by its pitch class and octave.
pub proof fn lemma_note_oct_parts(a: NoteOct, b: NoteOct)
    requires
        spec_note_of(a) == spec_note_of(b),
        spec_oct_of(a) == spec_oct_of(b),
    ensures
        a == b,
{
}

/// The pitch class named by a bare letter, if any.
pub open spec fn spec_natural_of(c: char) -> Option<NoteName> {
    if c == 'C' {
        Some(NoteName::C)
    } else if c == 'D' {
        Some(NoteName::D)
    } else if c == 'E' {
        Some(NoteName::E)
    } else if c == 'F' {
        Some(NoteName::F)
    } else if c == 'G' {
        Some(NoteName::G)
    } else if c == 'A' {
        Some(NoteName::A)
    } else if c == 'B' {
        Some(NoteName::B)
    } else {
        None
    }
}

/// The sharpened class of a natural letter, where one exists.
pub open spec fn spec_sharp_of(n: NoteName) -> Option<NoteName> {
    match n {
        NoteName::C => Some(NoteName::CSharpDFlat),
        NoteName::D => Some(NoteName::DSharpEFlat),
        NoteName::F => Some(NoteName::FSharpGFlat),
        NoteName::G => Some(NoteName::GSharpAFlat),
        NoteName::A => Some(NoteName::ASharpBFlat),
        _ => None,
    }
}

/// The flattened class of a natural letter, where one exists.
pub open spec fn spec_flat_of(n: NoteName) -> Option<NoteName> {
    match n {
        NoteName::D => Some(NoteName::CSharpDFlat),
        NoteName::E => Some(NoteName::DSharpEFlat),
        NoteName::G => Some(NoteName::FSharpGFlat),
        NoteName::A => Some(NoteName::GSharpAFlat),
        NoteName::B => Some(NoteName::ASharpBFlat),
        _ => None,
    }
}

/// The letter of the flat spelling of an accidental class (`'D'` for C#/Db).
pub open spec fn spec_flat_letter(n: NoteName) -> char {
    match n {
        NoteName::CSharpDFlat => 'D',
        NoteName::DSharpEFlat => 'E',
        NoteName::FSharpGFlat => 'G',
        NoteName::GSharpAFlat => 'A',
        _ => 'B',
    }
}

/// Longest pitch-class spelling at the head of `s`: the combined `X#/Yb`
/// form (5 characters), a sharp or flat form (2), or a bare letter (1),
/// together with how many characters it consumed.
pub open spec fn spec_note_prefix(s: Seq<char>) -> Option<(NoteName, int)> {
    if s.len() == 0 {
        None
    } else {
        match spec_natural_of(s[0]) {
            None => None,
            Some(n) => {
                if s.len() >= 2 && s[1] == '#' && spec_sharp_of(n) is Some {
                    match spec_sharp_of(n) {
                        Some(sh) => {
                            if s.len() >= 5 && s[2] == '/' && s[3] == spec_flat_letter(sh) && s[4]
                                == 'b' {
                                Some((sh, 5))
                            } else {
                                Some((sh, 2))
                            }
                        },
                        None => None,
                    }
                } else if s.len() >= 2 && s[1] == 'b' && spec_flat_of(n) is Some {
                    match spec_flat_of(n) {
                        Some(fl) => Some((fl, 2)),
                        None => None,
                    }
                } else {
                    Some((n, 1))
                }
            },
        }
    }
}

/// A whole string names a pitch class when a spelling consumes all of it.
pub open spec fn spec_parse_note_name(s: Seq<char>) -> Option<NoteName> {
    match spec_note_prefix(s) {
        Some((n, k)) => if k == s.len() {
            Some(n)
        } else {
            None
        },
        None => None,
    }
}

/// The octave named by a single digit character, `'1'` through `'8'`.
pub open spec fn spec_oct_digit(c: char) -> Option<int> {
    if c == '1' {
        Some(1)
    } else if c == '2' {
        Some(2)
    } else if c == '3' {
        Some(3)
    } else if c == '4' {
        Some(4)
    } else if c == '5' {
        Some(5)
    } else if c == '6' {
        Some(6)
    } else if c == '7' {
        Some(7)
    } else if c == '8' {
        Some(8)
    } else {
        None
    }
}

/// A whole string names a pitched note when it is a pitch-class spelling
/// followed by exactly one octave digit.
pub open spec fn spec_parse_note_oct(s: Seq<char>) -> Option<NoteOct> {
    match spec_note_prefix(s) {
        Some((n, k)) => if s.len() == k + 1 {
            match spec_oct_digit(s[k]) {
                Some(o) => Some(spec_mk_note(n, o)),
                None => None,
            }
        } else {
            None
        },
        None => None,
    }
}

/// Reads the longest pitch-class spelling at the head of `s`.
pub(crate) fn parse_note_prefix(s: &str) -> (r: Option<(NoteName, usize)>)
    ensures
        match r {
            Some(p) => spec_note_prefix(s@) == Some((p.0, p.1 as int)),
            None => spec_note_prefix(s@) is None,
        },
{
    let len = s.unicode_len();
    if len == 0 {
        return None;
    }
    let c0 = s.get_char(0);
    let natural = match c0 {
        'C' => NoteName::C,
        'D' => NoteName::D,
        'E' => NoteName::E,
        'F' => NoteName::F,
        'G' => NoteName::G,
        'A' => NoteName::A,
        'B' => NoteName::B,
        _ => { return None; },
    };
    if len >= 2 {
        let c1 = s.get_char(1);
        if c1 == '#' {
            let sharp = match natural {
                NoteName::C => Some(NoteName::CSharpDFlat),
                NoteName::D => Some(NoteName::DSharpEFlat),
                NoteName::F => Some(NoteName::FSharpGFlat),
                NoteName::G => Some(NoteName::GSharpAFlat),
                NoteName::A => Some(NoteName::ASharpBFlat),
                _ => None,
            };
            if let Some(sh) = sharp {
                let flat_letter = match sh {
                    NoteName::CSharpDFlat => 'D',
                    NoteName::DSharpEFlat => 'E',
                    NoteName::FSharpGFlat => 'G',
                    NoteName::GSharpAFlat => 'A',
                    _ => 'B',
                };
                if len >= 5 && s.get_char(2) == '/' && s.get_char(3) == flat_letter && s.get_char(4)
                    == 'b' {
                    return Some((sh, 5));
                }
                return Some((sh, 2));
            }
        }
        if c1 == 'b' {
            let flat = match natural {
                NoteName::D => Some(NoteName::CSharpDFlat),
                NoteName::E => Some(NoteName::DSharpEFlat),
                NoteName::G => Some(NoteName::FSharpGFlat),
                NoteName::A => Some(NoteName::GSharpAFlat),
                NoteName::B => Some(NoteName::ASharpBFlat),
                _ => None,
            };
            if let Some(fl) = flat {
                return Some((fl, 2));
            }
        }
    }
    Some((natural, 1))
}

impl NoteName {
    /// Parses a pitch-class name, such as `"C"`, `"C#"`, `"Db"` or `"C#/Db"`.
    pub fn try_from(value: &str) -> (r: Result<NoteName, NoteNameError>)
        ensures
            match r {
                Ok(n) => spec_parse_note_name(value@) == Some(n),
                Err(e) => spec_parse_note_name(value@) is None && e.0@ == value@,
            },
    {
        let len = value.unicode_len();
        match parse_note_prefix(value) {
            Some(p) => {
                if p.1 == len {
                    Ok(p.0)
                } else {
                    Err(NoteNameError(value.to_owned()))
                }
            },
            None => Err(NoteNameError(value.to_owned())),
        }
    }
}

impl NoteOct {
    /// Parses a pitched-note name, such as `"C4"`, `"Eb5"` or `"C#/Db4"`.
    pub fn try_from(value: &str) -> (r: Result<NoteOct, NoteOctError>)
        ensures
            match r {
                Ok(n) => spec_parse_note_oct(value@) == Some(n),
                Err(e) => spec_parse_note_oct(value@) is None && e.0@ == value@,
            },
    {
        let len = value.unicode_len();
        match parse_note_prefix(value) {
            Some(p) => {
                if p.1 + 1 == len {
                    let d = value.get_char(p.1);
                    let oct: usize = match d {
                        '1' => 1,
                        '2' => 2,
                        '3' => 3,
                        '4' => 4,
                        '5' => 5,
                        '6' => 6,
                        '7' => 7,
                        '8' => 8,
                        _ => { return Err(NoteOctError(value.to_owned())); },
                    };
                    Ok(NoteOct::from_note(&p.0, oct))
                } else {
                    Err(NoteOctError(value.to_owned()))
                }
            },
            None => Err(NoteOctError(value.to_owned())),
        }
    }
}

impl NoteOct {
    /// Binds a pitch class to an octave.
    pub fn from_note(note_name: &NoteName, oct: usize) -> (r: NoteOct)
        ensures
            r == spec_mk_note(*note_name, oct as int),
            spec_note_of(r) == *note_name,
            spec_oct_of(r) == oct as int,
    {
        match note_name {
            NoteName::C => NoteOct::C(oct),
            NoteName::CSharpDFlat => NoteOct::CSharpDFlat(oct),
            NoteName::D => NoteOct::D(oct),
            NoteName::DSharpEFlat => NoteOct::DSharpEFlat(oct),
            NoteName::E => NoteOct::E(oct),
            NoteName::F => NoteOct::F(oct),
            NoteName::FSharpGFlat => NoteOct::FSharpGFlat(oct),
            NoteName::G => NoteOct::G(oct),
            NoteName::GSharpAFlat => NoteOct::GSharpAFlat(oct),
            NoteName::A => NoteOct::A(oct),
            NoteName::ASharpBFlat => NoteOct::ASharpBFlat(oct),
            NoteName::B => NoteOct::B(oct),
        }
    }

    /// The pitch class of this note.
    pub fn note_name(&self) -> (n: NoteName)
        ensures
            n == spec_note_of(*self),
    {
        match self {
            NoteOct::C(_) => NoteName::C,
            NoteOct::CSharpDFlat(_) => NoteName::CSharpDFlat,
            NoteOct::D(_) => NoteName::D,
            NoteOct::DSharpEFlat(_) => NoteName::DSharpEFlat,
            NoteOct::E(_) => NoteName::E,
            NoteOct::F(_) => NoteName::F,
            NoteOct::FSharpGFlat(_) => NoteName::FSharpGFlat,
            NoteOct::G(_) => NoteName::G,
            NoteOct::GSharpAFlat(_) => NoteName::GSharpAFlat,
            NoteOct::A(_) => NoteName::A,
            NoteOct::ASharpBFlat(_) => NoteName::ASharpBFlat,
            NoteOct::B(_) => NoteName::B,
        }
    }

    /// The octave of this note.
    pub fn octave(&self) -> (o: usize)
        ensures
            o == spec_oct_of(*self),
    {
        match self {
            NoteOct::C(o) => *o,
            NoteOct::CSharpDFlat(o) => *o,
            NoteOct::D(o) => *o,
            NoteOct::DSharpEFlat(o) => *o,
            NoteOct::E(o) => *o,
            NoteOct::F(o) => *o,
            NoteOct::FSharpGFlat(o) => *o,
            NoteOct::G(o) => *o,
            NoteOct::GSharpAFlat(o) => *o,
            NoteOct::A(o) => *o,
            NoteOct::ASharpBFlat(o) => *o,
            NoteOct::B(o) => *o,
        }
    }
}

} // verus!
