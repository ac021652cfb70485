//! The music-theory lookup service: note weights, weight-to-note lookups,
//! chord spellings and enharmonic equivalents. The tables are total
//! functions of their keys, so the service is a stateless object constructed
//! once and shared freely.

use vstd::prelude::*;
use crate::chords::{spec_spelling_of, ChordName, ChordSpelling};
use crate::notes::{spec_weight, wf_note, NoteName, NoteOct};

verus! {

/// The enharmonic partner of a pitch class. The five accidental classes each
/// pair their sharp and flat spellings in one variant, so each maps to
/// itself; the seven natural classes have no enharmonic partner.
pub open spec fn spec_enharmonic_of(n: NoteName) -> Option<NoteName> {
    match n {
        NoteName::CSharpDFlat => Some(NoteName::CSharpDFlat),
        NoteName::DSharpEFlat => Some(NoteName::DSharpEFlat),
        NoteName::FSharpGFlat => Some(NoteName::FSharpGFlat),
        NoteName::GSharpAFlat => Some(NoteName::GSharpAFlat),
        NoteName::ASharpBFlat => Some(NoteName::ASharpBFlat),
        _ => None,
    }
}

/// The enharmonic pairs, one entry per accidental pitch class.
pub fn generate_enharmonics() -> (r: Vec<(NoteName, NoteName)>)
    ensures
        r@ == seq![
            (NoteName::CSharpDFlat, NoteName::CSharpDFlat),
            (NoteName::DSharpEFlat, NoteName::DSharpEFlat),
            (NoteName::FSharpGFlat, NoteName::FSharpGFlat),
            (NoteName::GSharpAFlat, NoteName::GSharpAFlat),
            (NoteName::ASharpBFlat, NoteName::ASharpBFlat),
        ],
{
    let r: Vec<(NoteName, NoteName)> = vec![
        (NoteName::CSharpDFlat, NoteName::CSharpDFlat),
        (NoteName::DSharpEFlat, NoteName::DSharpEFlat),
        (NoteName::FSharpGFlat, NoteName::FSharpGFlat),
        (NoteName::GSharpAFlat, NoteName::GSharpAFlat),
        (NoteName::ASharpBFlat, NoteName::ASharpBFlat),
    ];
    proof {
        assert(r@ =~= seq![
            (NoteName::CSharpDFlat, NoteName::CSharpDFlat),
            (NoteName::DSharpEFlat, NoteName::DSharpEFlat),
            (NoteName::FSharpGFlat, NoteName::FSharpGFlat),
            (NoteName::GSharpAFlat, NoteName::GSharpAFlat),
            (NoteName::ASharpBFlat, NoteName::ASharpBFlat),
        ]);
    }
    r
}

/// Read-only service over the pitch registry and chord spelling table.
pub struct MusicTheoryBaux {}

impl MusicTheoryBaux {
    /// Builds the service. The tables are pure functions, so nothing is
    /// stored.
    pub fn new() -> (r: MusicTheoryBaux) {
        MusicTheoryBaux {  }
    }

    /// The weight of a pitched note: `Some` exactly for the supported
    /// octaves `[1, 8]`, increasing by one per semitone from `C1 = 0`.
    pub fn get_note_weight(&self, note: &NoteOct) -> (r: Option<usize>)
        ensures
            wf_note(*note) ==> r == Some(spec_weight(*note) as usize),
            !wf_note(*note) ==> r is None,
    {
        let o = note.octave();
        if 1 <= o && o <= 8 {
            Some((o - 1) * 12 + note.note_name().index())
        } else {
            None
        }
    }

    /// The pitched note carrying a weight: `Some` exactly for weights below
    /// 96, the size of the supported range.
    pub fn get_weight_note(&self, weight: &usize) -> (r: Option<NoteOct>)
        ensures
            match r {
                Some(n) => *weight < 96 && wf_note(n) && spec_weight(n) == *weight,
                None => *weight >= 96,
            },
    {
        let w = *weight;
        if w < 96 {
            let o = w / 12 + 1;
            let i = w % 12;
            proof {
                vstd::arithmetic::div_mod::lemma_fundamental_div_mod(w as int, 12);
                vstd::arithmetic::div_mod::lemma_mod_bound(w as int, 12);
                vstd::arithmetic::div_mod::lemma_div_pos_is_pos(w as int, 12);
                crate::notes::lemma_note_index_roundtrip((w as int) % 12);
            }
            Some(NoteOct::from_note(&NoteName::from_index(i), o))
        } else {
            None
        }
    }

    /// The spelling of a chord identity. The spelling table is total over
    /// the closed set of chord identities, so this always succeeds.
    pub fn get_chord_spelling(&self, chord: &ChordName) -> (r: Option<ChordSpelling>)
        ensures
            match r {
                Some(sp) => sp.name == *chord && sp.spelling@ == spec_spelling_of(*chord),
                None => false,
            },
    {
        Some(ChordSpelling::of_chord(chord))
    }

    /// The enharmonic partner of a pitch class, where one exists.
    pub fn get_enharmonic(&self, note: &NoteName) -> (r: Option<NoteName>)
        ensures
            r == spec_enharmonic_of(*note),
    {
        match note {
            NoteName::CSharpDFlat => Some(NoteName::CSharpDFlat),
            NoteName::DSharpEFlat => Some(NoteName::DSharpEFlat),
            NoteName::FSharpGFlat => Some(NoteName::FSharpGFlat),
            NoteName::GSharpAFlat => Some(NoteName::GSharpAFlat),
            NoteName::ASharpBFlat => Some(NoteName::ASharpBFlat),
            _ => None,
        }
    }
}

impl Default for MusicTheoryBaux {
    fn default() -> (r: Self)
        ensures
            r == (MusicTheoryBaux {  }),
    {
        MusicTheoryBaux::new()
    }
}

} // verus!
