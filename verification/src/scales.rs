//! Scale naming types and the relative major-to-minor key table.

use vstd::prelude::*;
use crate::notes::NoteName;

verus! {

/// The scale qualities the library names.
#[derive(Debug, Clone, Copy, PartialEq, Eq, Structural)]
pub enum ScaleQuality {
    Maj,
    Min,
    HarmMin,
    MelMin,
    MajPent,
    MinPent,
}

/// Error returned when a string does not name a scale.
#[derive(Debug, Clone)]
pub struct ScaleNameError(pub String);

/// A scale identity: a root pitch class tagged with a quality.
#[derive(Debug, Clone, Copy, PartialEq, Eq, Structural)]
pub enum ScaleName {
    C(ScaleQuality),
    CSharpDFlat(ScaleQuality),
    D(ScaleQuality),
    DSharpEFlat(ScaleQuality),
    E(ScaleQuality),
    F(ScaleQuality),
    FSharpGFlat(ScaleQuality),
    G(ScaleQuality),
    GSharpAFlat(ScaleQuality),
    A(ScaleQuality),
    ASharpBFlat(ScaleQuality),
    B(ScaleQuality),
}

/// One member of a scale: a pitch class tagged with its degree.
#[derive(Debug, Clone, Copy, PartialEq, Eq, Structural)]
pub enum ScaleDegree {
    First(NoteName),
    FlatSecond(NoteName),
    Second(NoteName),
    SharpSecond(NoteName),
    FlatThird(NoteName),
    Third(NoteName),
    Fourth(NoteName),
    SharpFourth(NoteName),
    FlatFifth(NoteName),
    Fifth(NoteName),
    SharpFifth(NoteName),
    FlatSixth(NoteName),
    Sixth(NoteName),
    FlatSeventh(NoteName),
    Seventh(NoteName),
}

/// A scale identity together with its ordered degrees.
#[derive(Debug, Clone, PartialEq)]
pub struct ScaleSpelling {
    pub name: ScaleName,
    pub spelling: Vec<ScaleDegree>,
    pub quality: ScaleQuality,
    pub root: NoteName,
}

/// The major-to-relative-minor key pairs, in table order. Enharmonic
/// spellings share a pitch-class variant, so pairs whose two spellings name
/// the same class collapse onto that class.
pub fn generate_relative_keys() -> (r: Vec<(NoteName, NoteName)>)
    ensures
        r@ == seq![
            (NoteName::C, NoteName::A),
            (NoteName::CSharpDFlat, NoteName::ASharpBFlat),
            (NoteName::D, NoteName::B),
            (NoteName::DSharpEFlat, NoteName::DSharpEFlat),
            (NoteName::E, NoteName::CSharpDFlat),
            (NoteName::F, NoteName::D),
            (NoteName::FSharpGFlat, NoteName::FSharpGFlat),
            (NoteName::G, NoteName::E),
            (NoteName::GSharpAFlat, NoteName::GSharpAFlat),
            (NoteName::A, NoteName::FSharpGFlat),
            (NoteName::ASharpBFlat, NoteName::G),
            (NoteName::B, NoteName::GSharpAFlat),
        ],
{
    let r: Vec<(NoteName, NoteName)> = vec![
        (NoteName::C, NoteName::A),
        (NoteName::CSharpDFlat, NoteName::ASharpBFlat),
        (NoteName::D, NoteName::B),
        (NoteName::DSharpEFlat, NoteName::DSharpEFlat),
        (NoteName::E, NoteName::CSharpDFlat),
        (NoteName::F, NoteName::D),
        (NoteName::FSharpGFlat, NoteName::FSharpGFlat),
        (NoteName::G, NoteName::E),
        (NoteName::GSharpAFlat, NoteName::GSharpAFlat),
        (NoteName::A, NoteName::FSharpGFlat),
        (NoteName::ASharpBFlat, NoteName::G),
        (NoteName::B, NoteName::GSharpAFlat),
    ];
    proof {
        assert(r@ =~= seq![
            (NoteName::C, NoteName::A),
            (NoteName::CSharpDFlat, NoteName::ASharpBFlat),
            (NoteName::D, NoteName::B),
            (NoteName::DSharpEFlat, NoteName::DSharpEFlat),
            (NoteName::E, NoteName::CSharpDFlat),
            (NoteName::F, NoteName::D),
            (NoteName::FSharpGFlat, NoteName::FSharpGFlat),
            (NoteName::G, NoteName::E),
            (NoteName::GSharpAFlat, NoteName::GSharpAFlat),
            (NoteName::A, NoteName::FSharpGFlat),
            (NoteName::ASharpBFlat, NoteName::G),
            (NoteName::B, NoteName::GSharpAFlat),
        ]);
    }
    r
}

} // verus!
