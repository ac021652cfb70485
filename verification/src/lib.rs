//! A small music-theory library built around a verified voice-leading engine.
//!
//! The library models pitch classes, pitched notes, chord identities and chord
//! spellings, and re-voices chord progressions so that the total keyboard
//! distance travelled between successive chords is minimal over the engine's
//! candidate search space — and, away from the extremes of the supported
//! register, minimal over every realization of the target chord outright
//! (see `laws`).

mod baux;
mod chords;
pub mod laws;
mod notes;
mod scales;
mod voicings;

pub use crate::baux::{generate_enharmonics, MusicTheoryBaux};
pub use crate::chords::{
    create_chord_name, ChordName, ChordNameError, ChordQuality, ChordSpelling, ChordTone,
    ChordToneDegree,
};
pub use crate::notes::{NoteName, NoteNameError, NoteOct, NoteOctError};
pub use crate::scales::{
    generate_relative_keys, ScaleDegree, ScaleName, ScaleNameError, ScaleQuality, ScaleSpelling,
};
pub use crate::voicings::{
    from_input, BestChoices, ChordVoice, ChordVoicing, ChordVoicingError, VoiceLeadingChoice,
    VoiceLeadingConfig,
};
