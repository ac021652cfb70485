//! The voice-leading engine. A `ChordVoicing` realizes a chord identity as
//! three pitched voices; `voice_lead` re-voices it to a target chord so that
//! the total weight distance travelled is minimal over the engine's candidate
//! search space, never doubling a pitch class.

use vstd::prelude::*;
use crate::chords::{
    spec_quality_of, spec_root_of, spec_spelling_of, spec_tone_degree, spec_tone_note, ChordName,
    ChordQuality, ChordSpelling, ChordTone, ChordToneDegree,
};
use crate::notes::{
    spec_mk_note, spec_note_of, spec_oct_of, spec_weight, wf_note, NoteName, NoteOct,
};

verus! {

/// Error returned by `from_input`: either the chord symbol cannot be
/// parsed, or a supplied octave lies outside `[1, 8]` (the second field
/// names the offending voice slot).
#[derive(Debug, Clone)]
pub enum ChordVoicingError {
    ParseChordName(String),
    InvalidOct(usize, String),
}

/// One sounding voice: a pitched note bound to its scale-degree role within
/// the chord.
#[derive(Debug, Clone, Copy, PartialEq, Eq, Hash, Structural)]
pub enum ChordVoice {
    Root(NoteOct),
    Second(NoteOct),
    Third(NoteOct),
    Fourth(NoteOct),
    Fifth(NoteOct),
    Seventh(NoteOct),
}

/// The pitched note a voice sounds.
pub open spec fn voice_note(v: ChordVoice) -> NoteOct {
    match v {
        ChordVoice::Root(n) => n,
        ChordVoice::Second(n) => n,
        ChordVoice::Third(n) => n,
        ChordVoice::Fourth(n) => n,
        ChordVoice::Fifth(n) => n,
        ChordVoice::Seventh(n) => n,
    }
}

/// The scale-degree role of a voice.
pub open spec fn voice_degree(v: ChordVoice) -> ChordToneDegree {
    match v {
        ChordVoice::Root(_) => ChordToneDegree::Root,
        ChordVoice::Second(_) => ChordToneDegree::Second,
        ChordVoice::Third(_) => ChordToneDegree::Third,
        ChordVoice::Fourth(_) => ChordToneDegree::Fourth,
        ChordVoice::Fifth(_) => ChordToneDegree::Fifth,
        ChordVoice::Seventh(_) => ChordToneDegree::Seventh,
    }
}

/// The voice with a given role and pitched note.
pub open spec fn spec_mk_voice(d: ChordToneDegree, n: NoteOct) -> ChordVoice {
    match d {
        ChordToneDegree::Root => ChordVoice::Root(n),
        ChordToneDegree::Second => ChordVoice::Second(n),
        ChordToneDegree::Third => ChordVoice::Third(n),
        ChordToneDegree::Fourth => ChordVoice::Fourth(n),
        ChordToneDegree::Fifth => ChordVoice::Fifth(n),
        ChordToneDegree::Seventh => ChordVoice::Seventh(n),
    }
}

/// The pitch class a voice sounds.
pub open spec fn voice_class(v: ChordVoice) -> NoteName {
    spec_note_of(voice_note(v))
}

/// The weight of the note a voice sounds.
pub open spec fn voice_weight(v: ChordVoice) -> int {
    spec_weight(voice_note(v))
}

impl ChordVoice {
    /// Binds a pitched note to the role of a chord tone.
    pub fn from_parts(note: &NoteOct, chord_tone: &ChordTone) -> (v: ChordVoice)
        ensures
            v == spec_mk_voice(spec_tone_degree(*chord_tone), *note),
    {
        match chord_tone.get_tone_degree() {
            ChordToneDegree::Root => ChordVoice::Root(*note),
            ChordToneDegree::Second => ChordVoice::Second(*note),
            ChordToneDegree::Third => ChordVoice::Third(*note),
            ChordToneDegree::Fourth => ChordVoice::Fourth(*note),
            ChordToneDegree::Fifth => ChordVoice::Fifth(*note),
            ChordToneDegree::Seventh => ChordVoice::Seventh(*note),
        }
    }

    /// The pitched note this voice sounds.
    pub fn note_oct(&self) -> (n: &NoteOct)
        ensures
            *n == voice_note(*self),
    {
        match self {
            ChordVoice::Root(n) => n,
            ChordVoice::Second(n) => n,
            ChordVoice::Third(n) => n,
            ChordVoice::Fourth(n) => n,
            ChordVoice::Fifth(n) => n,
            ChordVoice::Seventh(n) => n,
        }
    }
}

/// The weight of the note a voice sounds.
fn weight_of_voice(v: &ChordVoice) -> (w: usize)
    requires
        wf_note(voice_note(*v)),
    ensures
        w == voice_weight(*v),
{
    let n = v.note_oct();
    (n.octave() - 1) * 12 + n.note_name().index()
}

/// The absolute difference of two integers.
pub open spec fn spec_abs_diff(a: int, b: int) -> int {
    if a >= b {
        a - b
    } else {
        b - a
    }
}

/// One candidate re-voicing of a single voice, with its weight distance
/// from the voice it would replace.
#[derive(Debug, Clone, Copy)]
pub struct VoiceLeadingChoice {
    pub diff: usize,
    pub voice: ChordVoice,
}

/// The best few candidates for one voice, under the asymmetric policy of
/// the engine: the two closest candidates that do not ascend (`lo`) and the
/// two closest that ascend (`hi`). Slots a partition cannot fill keep the
/// old voice itself at an unusable `usize::MAX` distance.
#[derive(Debug, Clone, Copy)]
pub struct BestChoices {
    pub lo: (VoiceLeadingChoice, VoiceLeadingChoice),
    pub hi: (VoiceLeadingChoice, VoiceLeadingChoice),
}

/// One full re-voicing: three chosen voices and their accumulated distance.
#[derive(Debug, Clone)]
pub struct VoiceLeadingConfig {
    pub voices: Vec<ChordVoice>,
    pub diff: usize,
}

/// The candidate voice built from tone `i / 8` of a spelling at octave
/// `i % 8 + 1`: candidates enumerate each tone through all eight octaves.
pub open spec fn cand_at(tones: Seq<ChordTone>, i: int) -> ChordVoice {
    spec_mk_voice(
        spec_tone_degree(tones[i / 8]),
        spec_mk_note(spec_tone_note(tones[i / 8]), i % 8 + 1),
    )
}

/// The full candidate list of a three-tone spelling: 24 voices, tone by
/// tone, octaves ascending.
pub open spec fn spec_candidates(tones: Seq<ChordTone>) -> Seq<ChordVoice> {
    Seq::new(24, |i: int| cand_at(tones, i))
}

/// Every candidate is well formed: its octave lies in `[1, 8]`.
pub proof fn lemma_cand_wf(tones: Seq<ChordTone>, i: int)
    requires
        0 <= i < 24,
    ensures
        wf_note(voice_note(cand_at(tones, i))),
        voice_class(cand_at(tones, i)) == spec_tone_note(tones[i / 8]),
        voice_degree(cand_at(tones, i)) == spec_tone_degree(tones[i / 8]),
        0 <= i / 8 < 3,
        1 <= i % 8 + 1 <= 8,
{
    vstd::arithmetic::div_mod::lemma_fundamental_div_mod(i, 8);
    vstd::arithmetic::div_mod::lemma_mod_bound(i, 8);
    vstd::arithmetic::div_mod::lemma_div_pos_is_pos(i, 8);
}

/// The starting state of the best-choice fold: four unusable slots holding
/// the old voice at `usize::MAX` distance.
pub open spec fn bc_init(old: ChordVoice) -> BestChoices {
    BestChoices {
        lo: (
            VoiceLeadingChoice { diff: usize::MAX, voice: old },
            VoiceLeadingChoice { diff: usize::MAX, voice: old },
        ),
        hi: (
            VoiceLeadingChoice { diff: usize::MAX, voice: old },
            VoiceLeadingChoice { diff: usize::MAX, voice: old },
        ),
    }
}

/// One step of the best-choice fold: a candidate enters its partition
/// (non-ascending when its weight does not exceed the old voice's) and
/// displaces a slot only when strictly closer, so the first-seen candidate
/// wins ties.
pub open spec fn bc_step(bc: BestChoices, old_w: int, c: ChordVoice) -> BestChoices {
    let d = spec_abs_diff(voice_weight(c), old_w);
    if voice_weight(c) <= old_w {
        if d < bc.lo.0.diff as int {
            BestChoices {
                lo: (VoiceLeadingChoice { diff: d as usize, voice: c }, bc.lo.0),
                hi: bc.hi,
            }
        } else if d < bc.lo.1.diff as int {
            BestChoices {
                lo: (bc.lo.0, VoiceLeadingChoice { diff: d as usize, voice: c }),
                hi: bc.hi,
            }
        } else {
            bc
        }
    } else {
        if d < bc.hi.0.diff as int {
            BestChoices {
                lo: bc.lo,
                hi: (VoiceLeadingChoice { diff: d as usize, voice: c }, bc.hi.0),
            }
        } else if d < bc.hi.1.diff as int {
            BestChoices {
                lo: bc.lo,
                hi: (bc.hi.0, VoiceLeadingChoice { diff: d as usize, voice: c }),
            }
        } else {
            bc
        }
    }
}

/// The best choices an old voice has among a candidate list, folding the
/// candidates in order.
pub open spec fn bc_fold(old: ChordVoice, cands: Seq<ChordVoice>) -> BestChoices
    decreases cands.len(),
{
    if cands.len() == 0 {
        bc_init(old)
    } else {
        bc_step(bc_fold(old, cands.drop_last()), voice_weight(old), cands.last())
    }
}

/// Ranks the candidates against one old voice, keeping the two closest in
/// each direction.
fn best_for_voice(old_voice: ChordVoice, cands: &Vec<ChordVoice>) -> (r: BestChoices)
    requires
        wf_note(voice_note(old_voice)),
        forall|k: int| 0 <= k < cands@.len() ==> wf_note(voice_note(#[trigger] cands@[k])),
    ensures
        r == bc_fold(old_voice, cands@),
{
    let old_w = weight_of_voice(&old_voice);
    let mut bc = BestChoices {
        lo: (
            VoiceLeadingChoice { diff: usize::MAX, voice: old_voice },
            VoiceLeadingChoice { diff: usize::MAX, voice: old_voice },
        ),
        hi: (
            VoiceLeadingChoice { diff: usize::MAX, voice: old_voice },
            VoiceLeadingChoice { diff: usize::MAX, voice: old_voice },
        ),
    };
    let mut j: usize = 0;
    while j < cands.len()
        invariant
            j <= cands@.len(),
            old_w == voice_weight(old_voice),
            bc == bc_fold(old_voice, cands@.take(j as int)),
            forall|k: int| 0 <= k < cands@.len() ==> wf_note(voice_note(#[trigger] cands@[k])),
        decreases cands@.len() - j,
    {
        let c = cands[j];
        let w = weight_of_voice(&c);
        let d = if w >= old_w {
            w - old_w
        } else {
            old_w - w
        };
        if w <= old_w {
            if d < bc.lo.0.diff {
                bc = BestChoices {
                    lo: (VoiceLeadingChoice { diff: d, voice: c }, bc.lo.0),
                    hi: bc.hi,
                };
            } else if d < bc.lo.1.diff {
                bc = BestChoices {
                    lo: (bc.lo.0, VoiceLeadingChoice { diff: d, voice: c }),
                    hi: bc.hi,
                };
            }
        } else {
            if d < bc.hi.0.diff {
                bc = BestChoices {
                    lo: bc.lo,
                    hi: (VoiceLeadingChoice { diff: d, voice: c }, bc.hi.0),
                };
            } else if d < bc.hi.1.diff {
                bc = BestChoices {
                    lo: bc.lo,
                    hi: (bc.hi.0, VoiceLeadingChoice { diff: d, voice: c }),
                };
            }
        }
        proof {
            assert(cands@.take(j + 1 as int).drop_last() =~= cands@.take(j as int));
            assert(cands@.take(j + 1 as int).last() == cands@[j as int]);
        }
        j += 1;
    }
    proof {
        assert(cands@.take(cands@.len() as int) =~= cands@);
    }
    bc
}

/// A voice realizes one of a spelling's tones when its role and pitch class
/// agree with that tone.
pub open spec fn tone_matches(t: ChordTone, v: ChordVoice) -> bool {
    voice_degree(v) == spec_tone_degree(t) && voice_class(v) == spec_tone_note(t)
}

/// A voice realizes some tone of a spelling.
pub open spec fn voice_in_spelling(v: ChordVoice, tones: Seq<ChordTone>) -> bool {
    exists|i: int| 0 <= i < tones.len() && tone_matches(tones[i], v)
}

/// A chord identity realized as three pitched voices. The three voices
/// sound pairwise distinct pitch classes, each realizes a tone of the
/// chord's spelling, and `root` is the note of the voice sounding the
/// chord's root class. `note_weights` carries the voices' weights in order.
#[derive(Debug, PartialEq)]
pub struct ChordVoicing {
    pub chord_name: ChordName,
    pub root: NoteOct,
    pub voices: (ChordVoice, ChordVoice, ChordVoice),
    pub note_weights: Vec<usize>,
}

impl Clone for ChordVoicing {
    fn clone(&self) -> (r: Self)
        ensures
            r.chord_name == self.chord_name,
            r.root == self.root,
            r.voices == self.voices,
            r.note_weights@ == self.note_weights@,
    {
        ChordVoicing {
            chord_name: self.chord_name,
            root: self.root,
            voices: self.voices,
            note_weights: self.note_weights.clone(),
        }
    }
}

impl ChordVoicing {
    /// The invariant every voicing the library produces satisfies.
    pub open spec fn wf(self) -> bool {
        &&& wf_note(voice_note(self.voices.0))
        &&& wf_note(voice_note(self.voices.1))
        &&& wf_note(voice_note(self.voices.2))
        &&& voice_class(self.voices.0) != voice_class(self.voices.1)
        &&& voice_class(self.voices.0) != voice_class(self.voices.2)
        &&& voice_class(self.voices.1) != voice_class(self.voices.2)
        &&& voice_in_spelling(self.voices.0, spec_spelling_of(self.chord_name))
        &&& voice_in_spelling(self.voices.1, spec_spelling_of(self.chord_name))
        &&& voice_in_spelling(self.voices.2, spec_spelling_of(self.chord_name))
        &&& spec_note_of(self.root) == spec_root_of(self.chord_name)
        &&& (self.root == voice_note(self.voices.0) || self.root == voice_note(self.voices.1)
            || self.root == voice_note(self.voices.2))
        &&& self.note_weights@ == seq![
            spec_weight(voice_note(self.voices.0)) as usize,
            spec_weight(voice_note(self.voices.1)) as usize,
            spec_weight(voice_note(self.voices.2)) as usize,
        ]
    }

    /// The chord identity this voicing realizes.
    pub fn chord_name(&self) -> (c: ChordName)
        ensures
            c == self.chord_name,
    {
        self.chord_name
    }

    /// The quality of the realized chord.
    pub fn quality(&self) -> (q: ChordQuality)
        ensures
            q == spec_quality_of(self.chord_name),
    {
        self.chord_name.get_quality()
    }

    /// The voices' weights, in voice order.
    pub fn note_weights(&self) -> (w: &Vec<usize>)
        ensures
            w@ == self.note_weights@,
    {
        &self.note_weights
    }

    /// The note of the voice sounding the chord's root class.
    pub fn root(&self) -> (r: NoteOct)
        ensures
            r == self.root,
    {
        self.root
    }

    /// The three voices.
    pub fn voices(&self) -> (v: &(ChordVoice, ChordVoice, ChordVoice))
        ensures
            *v == self.voices,
    {
        &self.voices
    }

    /// The weight distance between two voices' notes.
    fn calculate_diff(&self, old_val: &ChordVoice, new_val: &ChordVoice) -> (d: usize)
        requires
            wf_note(voice_note(*old_val)),
            wf_note(voice_note(*new_val)),
        ensures
            d == spec_abs_diff(voice_weight(*old_val), voice_weight(*new_val)),
    {
        let old_weight = weight_of_voice(old_val);
        let new_weight = weight_of_voice(new_val);
        if old_weight >= new_weight {
            old_weight - new_weight
        } else {
            new_weight - old_weight
        }
    }

    /// Pairs each tone of a spelling with every octave in `[1, 8]`: the full
    /// candidate pool for re-voicing, 24 voices with no filtering.
    pub fn get_new_voice_choices(&self, new_spelling: &ChordSpelling) -> (r: Vec<ChordVoice>)
        requires
            new_spelling.spelling@.len() == 3,
        ensures
            r@ == spec_candidates(new_spelling.spelling@),
    {
        let tones = &new_spelling.spelling;
        let mut r: Vec<ChordVoice> = Vec::new();
        let mut t: usize = 0;
        while t < 3
            invariant
                t <= 3,
                tones@.len() == 3,
                r@.len() == t * 8,
                forall|k: int| 0 <= k < r@.len() ==> r@[k] == cand_at(tones@, k),
            decreases 3 - t,
        {
            let tone = tones[t];
            let mut o: usize = 1;
            while o <= 8
                invariant
                    t < 3,
                    1 <= o <= 9,
                    tones@.len() == 3,
                    tone == tones@[t as int],
                    r@.len() == t * 8 + (o - 1),
                    forall|k: int| 0 <= k < r@.len() ==> r@[k] == cand_at(tones@, k),
                decreases 9 - o,
            {
                let note_oct = NoteOct::from_note(tone.note(), o);
                r.push(ChordVoice::from_parts(&note_oct, &tone));
                proof {
                    let k = t * 8 + (o - 1) as int;
                    vstd::arithmetic::div_mod::lemma_fundamental_div_mod_converse(
                        k,
                        8,
                        t as int,
                        (o - 1) as int,
                    );
                    assert(r@[k] == cand_at(tones@, k));
                }
                o += 1;
            }
            t += 1;
        }
        proof {
            assert(r@ =~= spec_candidates(tones@));
        }
        r
    }

    /// Ranks the candidate pool against each of the current three voices,
    /// in voice order.
    fn calculate_best_choices(&self, new_chord_voices: &Vec<ChordVoice>) -> (r: Vec<BestChoices>)
        requires
            wf_note(voice_note(self.voices.0)),
            wf_note(voice_note(self.voices.1)),
            wf_note(voice_note(self.voices.2)),
            forall|k: int|
                0 <= k < new_chord_voices@.len() ==> wf_note(
                    voice_note(#[trigger] new_chord_voices@[k]),
                ),
        ensures
            r@.len() == 3,
            r@[0] == bc_fold(self.voices.0, new_chord_voices@),
            r@[1] == bc_fold(self.voices.1, new_chord_voices@),
            r@[2] == bc_fold(self.voices.2, new_chord_voices@),
    {
        let b0 = best_for_voice(self.voices.0, new_chord_voices);
        let b1 = best_for_voice(self.voices.1, new_chord_voices);
        let b2 = best_for_voice(self.voices.2, new_chord_voices);
        let r: Vec<BestChoices> = vec![b0, b1, b2];
        r
    }
}

/// Sum that sticks at `usize::MAX`, so an unusable filler choice keeps its
/// configuration unusable.
pub open spec fn sat_add(a: int, b: int) -> int {
    if a + b >= usize::MAX as int {
        usize::MAX as int
    } else {
        a + b
    }
}

fn sat_add_usize(a: usize, b: usize) -> (r: usize)
    ensures
        r as int == sat_add(a as int, b as int),
{
    if a > usize::MAX - b {
        usize::MAX
    } else {
        a + b
    }
}

/// The `j`-th of a voice's four ranked choices: closest and second-closest
/// non-ascending, then closest and second-closest ascending.
pub open spec fn bc_choice(bc: BestChoices, j: int) -> VoiceLeadingChoice {
    if j == 0 {
        bc.lo.0
    } else if j == 1 {
        bc.lo.1
    } else if j == 2 {
        bc.hi.0
    } else {
        bc.hi.1
    }
}

/// Three voices sound pairwise distinct pitch classes.
pub open spec fn distinct_classes(v0: ChordVoice, v1: ChordVoice, v2: ChordVoice) -> bool {
    &&& voice_class(v0) != voice_class(v1)
    &&& voice_class(v0) != voice_class(v2)
    &&& voice_class(v1) != voice_class(v2)
}

/// The `k`-th configuration of the Cartesian product of the three choice
/// lists, `k` in `0..64`, enumerated with the third voice's choice varying
/// fastest.
pub open spec fn cfg_choices(b0: BestChoices, b1: BestChoices, b2: BestChoices, k: int) -> (
    VoiceLeadingChoice,
    VoiceLeadingChoice,
    VoiceLeadingChoice,
) {
    (bc_choice(b0, k / 16), bc_choice(b1, (k % 16) / 4), bc_choice(b2, k % 4))
}

/// The accumulated distance of a configuration.
pub open spec fn cfg_diff(t: (VoiceLeadingChoice, VoiceLeadingChoice, VoiceLeadingChoice)) -> int {
    sat_add(sat_add(t.0.diff as int, t.1.diff as int), t.2.diff as int)
}

/// A configuration is valid when its three voices sound distinct pitch
/// classes.
pub open spec fn cfg_valid(t: (VoiceLeadingChoice, VoiceLeadingChoice, VoiceLeadingChoice)) -> bool {
    distinct_classes(t.0.voice, t.1.voice, t.2.voice)
}

/// The index of the first minimum-distance valid configuration among the
/// first `n`: scanning in order, a configuration displaces the best seen
/// only when strictly cheaper.
pub open spec fn spec_winner_upto(b0: BestChoices, b1: BestChoices, b2: BestChoices, n: int)
    -> Option<int>
    decreases n,
{
    if n <= 0 {
        None
    } else {
        let prev = spec_winner_upto(b0, b1, b2, n - 1);
        let cur = cfg_choices(b0, b1, b2, n - 1);
        match prev {
            None => if cfg_valid(cur) {
                Some(n - 1)
            } else {
                None
            },
            Some(p) => if cfg_valid(cur) && cfg_diff(cur) < cfg_diff(cfg_choices(b0, b1, b2, p)) {
                Some(n - 1)
            } else {
                Some(p)
            },
        }
    }
}

/// The index of the winning configuration over the whole product.
pub open spec fn spec_winner(b0: BestChoices, b1: BestChoices, b2: BestChoices) -> Option<int> {
    spec_winner_upto(b0, b1, b2, 64)
}

/// The winner among the first `n` configurations is valid and no valid
/// configuration among them is strictly cheaper; when there is no winner,
/// none of them is valid.
pub proof fn lemma_winner_upto_props(b0: BestChoices, b1: BestChoices, b2: BestChoices, n: int)
    requires
        n >= 0,
    ensures
        match spec_winner_upto(b0, b1, b2, n) {
            Some(p) => 0 <= p < n && cfg_valid(cfg_choices(b0, b1, b2, p)) && forall|k: int|
                0 <= k < n && cfg_valid(#[trigger] cfg_choices(b0, b1, b2, k)) ==> cfg_diff(
                    cfg_choices(b0, b1, b2, p),
                ) <= cfg_diff(cfg_choices(b0, b1, b2, k)),
            None => forall|k: int|
                0 <= k < n ==> !cfg_valid(#[trigger] cfg_choices(b0, b1, b2, k)),
        },
    decreases n,
{
    if n > 0 {
        lemma_winner_upto_props(b0, b1, b2, n - 1);
    }
}

/// The best choices an old voice has against a target chord's candidates,
/// for each of the three current voices.
pub open spec fn spec_bcs(v: ChordVoicing, c: ChordName) -> (BestChoices, BestChoices, BestChoices) {
    let cands = spec_candidates(spec_spelling_of(c));
    (bc_fold(v.voices.0, cands), bc_fold(v.voices.1, cands), bc_fold(v.voices.2, cands))
}

/// The index of the winning configuration of a re-voicing (0 when no
/// configuration is valid, a case `spec_leadable` rules out).
pub open spec fn spec_winner_index(v: ChordVoicing, c: ChordName) -> int {
    let t = spec_bcs(v, c);
    match spec_winner(t.0, t.1, t.2) {
        Some(k) => k,
        None => 0,
    }
}

/// A re-voicing is leadable when some valid configuration exists whose
/// distance is usable, that is, one built from real candidates rather than
/// filler slots. `voice_lead` requires this; `can_voice_lead` decides it.
pub open spec fn spec_leadable(v: ChordVoicing, c: ChordName) -> bool {
    let t = spec_bcs(v, c);
    match spec_winner(t.0, t.1, t.2) {
        Some(k) => cfg_diff(cfg_choices(t.0, t.1, t.2, k)) < usize::MAX as int,
        None => false,
    }
}

/// The winning configuration's choices.
pub open spec fn spec_lead_choices(v: ChordVoicing, c: ChordName) -> (
    VoiceLeadingChoice,
    VoiceLeadingChoice,
    VoiceLeadingChoice,
) {
    let t = spec_bcs(v, c);
    cfg_choices(t.0, t.1, t.2, spec_winner_index(v, c))
}

/// The three voices `voice_lead` returns, in voice order.
pub open spec fn spec_lead_voices(v: ChordVoicing, c: ChordName) -> (
    ChordVoice,
    ChordVoice,
    ChordVoice,
) {
    let w = spec_lead_choices(v, c);
    (w.0.voice, w.1.voice, w.2.voice)
}

/// The accumulated distance of the winning configuration.
pub open spec fn spec_lead_diff(v: ChordVoicing, c: ChordName) -> int {
    cfg_diff(spec_lead_choices(v, c))
}

/// The root note of the new voicing: the first returned voice sounding the
/// target chord's root class.
pub open spec fn spec_lead_root(v: ChordVoicing, c: ChordName) -> NoteOct {
    let w = spec_lead_voices(v, c);
    if voice_class(w.0) == spec_root_of(c) {
        voice_note(w.0)
    } else if voice_class(w.1) == spec_root_of(c) {
        voice_note(w.1)
    } else {
        voice_note(w.2)
    }
}

/// A best-choice slot either holds the old voice at the unusable
/// `usize::MAX` distance, or holds a candidate from the list at its true
/// distance from the old voice.
pub open spec fn entry_ok(old: ChordVoice, cands: Seq<ChordVoice>, e: VoiceLeadingChoice) -> bool {
    &&& (e.diff == usize::MAX ==> e.voice == old)
    &&& (e.diff < usize::MAX ==> exists|k: int| 0 <= k < cands.len() && cands[k] == e.voice)
    &&& (e.diff < usize::MAX ==> e.diff as int == spec_abs_diff(
        voice_weight(e.voice),
        voice_weight(old),
    ))
}

/// Every slot of the best choices satisfies `entry_ok`.
pub proof fn lemma_bc_entries(old: ChordVoice, cands: Seq<ChordVoice>)
    requires
        wf_note(voice_note(old)),
        forall|k: int| 0 <= k < cands.len() ==> wf_note(voice_note(#[trigger] cands[k])),
    ensures
        forall|j: int|
            0 <= j < 4 ==> entry_ok(old, cands, #[trigger] bc_choice(bc_fold(old, cands), j)),
    decreases cands.len(),
{
    crate::notes::lemma_weight_bounds(voice_note(old));
    if cands.len() == 0 {
        assert(forall|j: int|
            0 <= j < 4 ==> bc_choice(bc_fold(old, cands), j) == (VoiceLeadingChoice {
                diff: usize::MAX,
                voice: old,
            }));
    } else {
        lemma_bc_entries(old, cands.drop_last());
        let prev = bc_fold(old, cands.drop_last());
        let c = cands.last();
        assert(wf_note(voice_note(c))) by {
            assert(c == cands[cands.len() - 1]);
        }
        crate::notes::lemma_weight_bounds(voice_note(c));
        // entries carried over from the shorter list stay justified
        assert forall|j: int| 0 <= j < 4 implies entry_ok(
            old,
            cands,
            #[trigger] bc_choice(prev, j),
        ) by {
            let e = bc_choice(prev, j);
            if e.diff < usize::MAX {
                let k = choose|k: int|
                    0 <= k < cands.drop_last().len() && cands.drop_last()[k] == e.voice;
                assert(cands[k] == e.voice);
            }
        }
        // the candidate folded in last is justified by its own index
        let d = spec_abs_diff(voice_weight(c), voice_weight(old));
        assert(0 <= d < usize::MAX);
        assert(cands[cands.len() - 1] == c);
        assert(entry_ok(old, cands, VoiceLeadingChoice { diff: d as usize, voice: c }));
        let next = bc_step(prev, voice_weight(old), c);
        assert(bc_fold(old, cands) == next);
        assert(entry_ok(old, cands, bc_choice(prev, 0)) && bc_choice(prev, 0) == prev.lo.0);
        assert(entry_ok(old, cands, bc_choice(prev, 1)) && bc_choice(prev, 1) == prev.lo.1);
        assert(entry_ok(old, cands, bc_choice(prev, 2)) && bc_choice(prev, 2) == prev.hi.0);
        assert(entry_ok(old, cands, bc_choice(prev, 3)) && bc_choice(prev, 3) == prev.hi.1);
        assert(entry_ok(old, cands, next.lo.0));
        assert(entry_ok(old, cands, next.lo.1));
        assert(entry_ok(old, cands, next.hi.0));
        assert(entry_ok(old, cands, next.hi.1));
        assert forall|j: int| 0 <= j < 4 implies entry_ok(
            old,
            cands,
            #[trigger] bc_choice(bc_fold(old, cands), j),
        ) by {
            assert(bc_choice(next, j) == next.lo.0 || bc_choice(next, j) == next.lo.1 || bc_choice(
                next,
                j,
            ) == next.hi.0 || bc_choice(next, j) == next.hi.1);
        }
    }
}

/// Two distinct positions of the candidate list hold distinct voices, when
/// the spelling's three tone classes are distinct.
pub proof fn lemma_candidates_distinct(tones: Seq<ChordTone>, k1: int, k2: int)
    requires
        tones.len() == 3,
        spec_tone_note(tones[0]) != spec_tone_note(tones[1]),
        spec_tone_note(tones[0]) != spec_tone_note(tones[2]),
        spec_tone_note(tones[1]) != spec_tone_note(tones[2]),
        0 <= k1 < 24,
        0 <= k2 < 24,
        k1 != k2,
    ensures
        cand_at(tones, k1) != cand_at(tones, k2),
{
    lemma_cand_wf(tones, k1);
    lemma_cand_wf(tones, k2);
    vstd::arithmetic::div_mod::lemma_fundamental_div_mod(k1, 8);
    vstd::arithmetic::div_mod::lemma_fundamental_div_mod(k2, 8);
    assert(voice_note(cand_at(tones, k1)) == spec_mk_note(
        spec_tone_note(tones[k1 / 8]),
        k1 % 8 + 1,
    ));
    assert(voice_note(cand_at(tones, k2)) == spec_mk_note(
        spec_tone_note(tones[k2 / 8]),
        k2 % 8 + 1,
    ));
    crate::notes::lemma_mk_note_facts(spec_tone_note(tones[k1 / 8]), k1 % 8 + 1);
    crate::notes::lemma_mk_note_facts(spec_tone_note(tones[k2 / 8]), k2 % 8 + 1);
    if k1 / 8 == k2 / 8 {
        assert(k1 % 8 != k2 % 8);
        assert(spec_oct_of(voice_note(cand_at(tones, k1))) != spec_oct_of(
            voice_note(cand_at(tones, k2)),
        ));
    } else {
        assert(voice_class(cand_at(tones, k1)) != voice_class(cand_at(tones, k2)));
    }
}

/// A usable `lo` slot holds a non-ascending candidate.
pub open spec fn lo_entry_directed(old: ChordVoice, e: VoiceLeadingChoice) -> bool {
    e.diff < usize::MAX ==> voice_weight(e.voice) <= voice_weight(old)
}

/// A usable `hi` slot holds an ascending candidate.
pub open spec fn hi_entry_directed(old: ChordVoice, e: VoiceLeadingChoice) -> bool {
    e.diff < usize::MAX ==> voice_weight(e.voice) > voice_weight(old)
}

/// The `lo` slots hold non-ascending candidates and the `hi` slots
/// ascending ones, and when both slots of a pair are usable they hold
/// different candidates.
pub proof fn lemma_bc_entries_directed(old: ChordVoice, cands: Seq<ChordVoice>)
    requires
        wf_note(voice_note(old)),
        forall|k: int| 0 <= k < cands.len() ==> wf_note(voice_note(#[trigger] cands[k])),
        forall|k1: int, k2: int| 0 <= k1 < k2 < cands.len() ==> cands[k1] != cands[k2],
    ensures
        ({
            let bc = bc_fold(old, cands);
            &&& lo_entry_directed(old, bc.lo.0) && lo_entry_directed(old, bc.lo.1)
            &&& hi_entry_directed(old, bc.hi.0) && hi_entry_directed(old, bc.hi.1)
            &&& (bc.lo.0.diff < usize::MAX && bc.lo.1.diff < usize::MAX ==> bc.lo.0.voice
                != bc.lo.1.voice)
            &&& (bc.hi.0.diff < usize::MAX && bc.hi.1.diff < usize::MAX ==> bc.hi.0.voice
                != bc.hi.1.voice)
        }),
    decreases cands.len(),
{
    crate::notes::lemma_weight_bounds(voice_note(old));
    if cands.len() > 0 {
        let n = cands.len() as int;
        lemma_bc_entries_directed(old, cands.drop_last());
        lemma_bc_entries(old, cands.drop_last());
        assert(forall|k: int| 0 <= k < n - 1 ==> cands.drop_last()[k] == cands[k]);
        let prev = bc_fold(old, cands.drop_last());
        let c = cands.last();
        assert(c == cands[n - 1]);
        assert(wf_note(voice_note(c)));
        crate::notes::lemma_weight_bounds(voice_note(c));
        // the folded-in candidate differs from every usable slot carried
        // over, which holds a candidate of smaller index
        assert forall|j: int| 0 <= j < 4 && (#[trigger] bc_choice(prev, j)).diff
            < usize::MAX implies bc_choice(prev, j).voice != c by {
            assert(entry_ok(old, cands.drop_last(), bc_choice(prev, j)));
            let k = choose|k: int|
                0 <= k < cands.drop_last().len() && cands.drop_last()[k] == bc_choice(
                    prev,
                    j,
                ).voice;
            assert(cands[k] == bc_choice(prev, j).voice);
            assert(cands[k] != cands[n - 1]);
        }
        assert(bc_choice(prev, 0) == prev.lo.0 && bc_choice(prev, 1) == prev.lo.1);
        assert(bc_choice(prev, 2) == prev.hi.0 && bc_choice(prev, 3) == prev.hi.1);
    }
}

impl ChordVoicing {
    /// Whether a configuration doubles a pitch class among its three voices.
    fn has_duplicate_note(&self, config: &VoiceLeadingConfig) -> (r: bool)
        requires
            config.voices@.len() == 3,
        ensures
            r == !distinct_classes(config.voices@[0], config.voices@[1], config.voices@[2]),
    {
        let n0 = config.voices[0].note_oct().note_name();
        let n1 = config.voices[1].note_oct().note_name();
        let n2 = config.voices[2].note_oct().note_name();
        n0 == n1 || n0 == n2 || n1 == n2
    }

    /// Scans the 64 configurations in order and keeps the first one of
    /// minimal accumulated distance among the valid ones.
    fn compute_winner(&self, b0: &BestChoices, b1: &BestChoices, b2: &BestChoices) -> (r: Option<
        (usize, VoiceLeadingConfig),
    >)
        ensures
            match r {
                Some(p) => {
                    &&& spec_winner(*b0, *b1, *b2) == Some(p.0 as int)
                    &&& p.1.voices@.len() == 3
                    &&& p.1.voices@[0] == cfg_choices(*b0, *b1, *b2, p.0 as int).0.voice
                    &&& p.1.voices@[1] == cfg_choices(*b0, *b1, *b2, p.0 as int).1.voice
                    &&& p.1.voices@[2] == cfg_choices(*b0, *b1, *b2, p.0 as int).2.voice
                    &&& p.1.diff as int == cfg_diff(cfg_choices(*b0, *b1, *b2, p.0 as int))
                },
                None => spec_winner(*b0, *b1, *b2) is None,
            },
    {
        let mut best: Option<(usize, VoiceLeadingConfig)> = None;
        let mut k: usize = 0;
        let mut i0: usize = 0;
        while i0 < 4
            invariant
                i0 <= 4,
                k == 16 * i0,
                winner_scan_inv(*b0, *b1, *b2, best, k as int),
            decreases 4 - i0,
        {
            let mut i1: usize = 0;
            while i1 < 4
                invariant
                    i0 < 4,
                    i1 <= 4,
                    k == 16 * i0 + 4 * i1,
                    winner_scan_inv(*b0, *b1, *b2, best, k as int),
                decreases 4 - i1,
            {
                let mut i2: usize = 0;
                while i2 < 4
                    invariant
                        i0 < 4,
                        i1 < 4,
                        i2 <= 4,
                        k == 16 * i0 + 4 * i1 + i2,
                        winner_scan_inv(*b0, *b1, *b2, best, k as int),
                    decreases 4 - i2,
                {
                    let c0 = choice_of(b0, i0);
                    let c1 = choice_of(b1, i1);
                    let c2 = choice_of(b2, i2);
                    let d01 = sat_add_usize(c0.diff, c1.diff);
                    let d = sat_add_usize(d01, c2.diff);
                    let cfg = VoiceLeadingConfig { voices: vec![c0.voice, c1.voice, c2.voice], diff: d };
                    proof {
                        vstd::arithmetic::div_mod::lemma_fundamental_div_mod_converse(
                            k as int,
                            16,
                            i0 as int,
                            4 * i1 + i2,
                        );
                        vstd::arithmetic::div_mod::lemma_fundamental_div_mod_converse(
                            4 * (i1 as int) + (i2 as int),
                            4,
                            i1 as int,
                            i2 as int,
                        );
                        vstd::arithmetic::div_mod::lemma_fundamental_div_mod_converse(
                            k as int,
                            4,
                            4 * (i0 as int) + (i1 as int),
                            i2 as int,
                        );
                        assert(cfg_choices(*b0, *b1, *b2, k as int) == (c0, c1, c2));
                    }
                    if !self.has_duplicate_note(&cfg) {
                        let replace = match &best {
                            None => true,
                            Some(p) => d < p.1.diff,
                        };
                        if replace {
                            best = Some((k, cfg));
                        }
                    }
                    k += 1;
                    i2 += 1;
                }
                i1 += 1;
            }
            i0 += 1;
        }
        best
    }

    /// Builds the new voicing from the winning voices and the target chord:
    /// the weights are looked up per voice, and the root is the first voice
    /// sounding the target's root class.
    fn create_new_voicing(&self, new_chord: &ChordName, new_voices: &Vec<ChordVoice>) -> (r:
        ChordVoicing)
        requires
            new_voices@.len() == 3,
            wf_note(voice_note(new_voices@[0])),
            wf_note(voice_note(new_voices@[1])),
            wf_note(voice_note(new_voices@[2])),
            distinct_classes(new_voices@[0], new_voices@[1], new_voices@[2]),
            voice_in_spelling(new_voices@[0], spec_spelling_of(*new_chord)),
            voice_in_spelling(new_voices@[1], spec_spelling_of(*new_chord)),
            voice_in_spelling(new_voices@[2], spec_spelling_of(*new_chord)),
            voice_class(new_voices@[0]) == spec_root_of(*new_chord) || voice_class(new_voices@[1])
                == spec_root_of(*new_chord) || voice_class(new_voices@[2]) == spec_root_of(
                *new_chord,
            ),
        ensures
            r.chord_name == *new_chord,
            r.voices == (new_voices@[0], new_voices@[1], new_voices@[2]),
            r.root == (if voice_class(new_voices@[0]) == spec_root_of(*new_chord) {
                voice_note(new_voices@[0])
            } else if voice_class(new_voices@[1]) == spec_root_of(*new_chord) {
                voice_note(new_voices@[1])
            } else {
                voice_note(new_voices@[2])
            }),
            r.note_weights@ == seq![
                spec_weight(voice_note(new_voices@[0])) as usize,
                spec_weight(voice_note(new_voices@[1])) as usize,
                spec_weight(voice_note(new_voices@[2])) as usize,
            ],
            r.wf(),
    {
        let v0 = new_voices[0];
        let v1 = new_voices[1];
        let v2 = new_voices[2];
        let w0 = weight_of_voice(&v0);
        let w1 = weight_of_voice(&v1);
        let w2 = weight_of_voice(&v2);
        let note_weights: Vec<usize> = vec![w0, w1, w2];
        let target_root = new_chord.get_root();
        let root = if v0.note_oct().note_name() == target_root {
            *v0.note_oct()
        } else if v1.note_oct().note_name() == target_root {
            *v1.note_oct()
        } else {
            *v2.note_oct()
        };
        let r = ChordVoicing { chord_name: *new_chord, root, voices: (v0, v1, v2), note_weights };
        proof {
            assert(r.note_weights@ =~= seq![
                spec_weight(voice_note(new_voices@[0])) as usize,
                spec_weight(voice_note(new_voices@[1])) as usize,
                spec_weight(voice_note(new_voices@[2])) as usize,
            ]);
        }
        r
    }

    /// Re-voices this chord to a target chord identity. Among the
    /// configurations the engine enumerates (the Cartesian product of each
    /// voice's four closest candidates), the result realizes the first
    /// valid configuration of minimal total weight movement; validity means
    /// three pairwise distinct pitch classes.
    pub fn voice_lead(&self, new_chord: &ChordName) -> (r: ChordVoicing)
        requires
            self.wf(),
            spec_leadable(*self, *new_chord),
        ensures
            r.wf(),
            r.chord_name == *new_chord,
            r.voices == spec_lead_voices(*self, *new_chord),
            r.root == spec_lead_root(*self, *new_chord),
            r.note_weights@ == seq![
                spec_weight(voice_note(spec_lead_voices(*self, *new_chord).0)) as usize,
                spec_weight(voice_note(spec_lead_voices(*self, *new_chord).1)) as usize,
                spec_weight(voice_note(spec_lead_voices(*self, *new_chord).2)) as usize,
            ],
    {
        let new_spelling = ChordSpelling::of_chord(new_chord);
        let new_voice_choices = self.get_new_voice_choices(&new_spelling);
        proof {
            assert forall|k: int| 0 <= k < new_voice_choices@.len() implies wf_note(
                voice_note(#[trigger] new_voice_choices@[k]),
            ) by {
                lemma_cand_wf(new_spelling.spelling@, k);
            }
        }
        let best_choices = self.calculate_best_choices(&new_voice_choices);
        let b0 = best_choices[0];
        let b1 = best_choices[1];
        let b2 = best_choices[2];
        let win = self.compute_winner(&b0, &b1, &b2);
        proof {
            assert((b0, b1, b2) == spec_bcs(*self, *new_chord));
            lemma_lead_choices_usable(*self, *new_chord);
        }
        let p = win.unwrap();
        let cfg = p.1;
        self.create_new_voicing(new_chord, &cfg.voices)
    }

    /// Whether `voice_lead` can re-voice this chord to the target: some
    /// valid configuration built from real candidates must exist. This is
    /// the runtime check for `voice_lead`'s precondition.
    pub fn can_voice_lead(&self, new_chord: &ChordName) -> (r: bool)
        requires
            self.wf(),
        ensures
            r == spec_leadable(*self, *new_chord),
    {
        let new_spelling = ChordSpelling::of_chord(new_chord);
        let new_voice_choices = self.get_new_voice_choices(&new_spelling);
        proof {
            assert forall|k: int| 0 <= k < new_voice_choices@.len() implies wf_note(
                voice_note(#[trigger] new_voice_choices@[k]),
            ) by {
                lemma_cand_wf(new_spelling.spelling@, k);
            }
        }
        let best_choices = self.calculate_best_choices(&new_voice_choices);
        let b0 = best_choices[0];
        let b1 = best_choices[1];
        let b2 = best_choices[2];
        let win = self.compute_winner(&b0, &b1, &b2);
        match win {
            Some(p) => p.1.diff < usize::MAX,
            None => false,
        }
    }
}

/// The invariant of the winner scan: the best configuration seen so far
/// agrees with the specification's winner over the scanned prefix.
pub open spec fn winner_scan_inv(
    b0: BestChoices,
    b1: BestChoices,
    b2: BestChoices,
    best: Option<(usize, VoiceLeadingConfig)>,
    k: int,
) -> bool {
    match best {
        None => spec_winner_upto(b0, b1, b2, k) is None,
        Some(p) => {
            &&& spec_winner_upto(b0, b1, b2, k) == Some(p.0 as int)
            &&& p.1.voices@.len() == 3
            &&& p.1.voices@[0] == cfg_choices(b0, b1, b2, p.0 as int).0.voice
            &&& p.1.voices@[1] == cfg_choices(b0, b1, b2, p.0 as int).1.voice
            &&& p.1.voices@[2] == cfg_choices(b0, b1, b2, p.0 as int).2.voice
            &&& p.1.diff as int == cfg_diff(cfg_choices(b0, b1, b2, p.0 as int))
        },
    }
}

fn choice_of(bc: &BestChoices, j: usize) -> (r: VoiceLeadingChoice)
    requires
        j < 4,
    ensures
        r == bc_choice(*bc, j as int),
{
    if j == 0 {
        bc.lo.0
    } else if j == 1 {
        bc.lo.1
    } else if j == 2 {
        bc.hi.0
    } else {
        bc.hi.1
    }
}

/// Under `spec_leadable`, the winning configuration is built from real
/// candidates: each choice is a candidate voice of the target's spelling,
/// the three classes are pairwise distinct, and the target's root class is
/// among them.
pub proof fn lemma_lead_choices_usable(v: ChordVoicing, c: ChordName)
    requires
        v.wf(),
        spec_leadable(v, c),
    ensures
        ({
            let w = spec_lead_voices(v, c);
            let tones = spec_spelling_of(c);
            &&& wf_note(voice_note(w.0)) && wf_note(voice_note(w.1)) && wf_note(voice_note(w.2))
            &&& distinct_classes(w.0, w.1, w.2)
            &&& voice_in_spelling(w.0, tones) && voice_in_spelling(w.1, tones)
                && voice_in_spelling(w.2, tones)
            &&& (voice_class(w.0) == spec_root_of(c) || voice_class(w.1) == spec_root_of(c)
                || voice_class(w.2) == spec_root_of(c))
        }),
{
    let tones = spec_spelling_of(c);
    let cands = spec_candidates(tones);
    let t = spec_bcs(v, c);
    let ki = spec_winner_index(v, c);
    lemma_winner_upto_props(t.0, t.1, t.2, 64);
    let ch = spec_lead_choices(v, c);
    let w = spec_lead_voices(v, c);
    assert(cfg_valid(ch));
    assert(cfg_diff(ch) < usize::MAX as int);
    // each choice's distance is usable, so each holds a real candidate
    assert(ch.0.diff < usize::MAX && ch.1.diff < usize::MAX && ch.2.diff < usize::MAX);
    assert forall|k: int| 0 <= k < cands.len() implies wf_note(
        voice_note(#[trigger] cands[k]),
    ) by {
        lemma_cand_wf(tones, k);
    }
    assert(wf_note(voice_note(v.voices.0)) && wf_note(voice_note(v.voices.1)) && wf_note(
        voice_note(v.voices.2),
    ));
    lemma_bc_entries(v.voices.0, cands);
    lemma_bc_entries(v.voices.1, cands);
    lemma_bc_entries(v.voices.2, cands);
    assert forall|x: ChordVoice|
        (exists|k: int| 0 <= k < cands.len() && cands[k] == x) implies wf_note(voice_note(x))
        && voice_in_spelling(x, tones) by {
        let k = choose|k: int| 0 <= k < cands.len() && cands[k] == x;
        lemma_cand_wf(tones, k);
        assert(cands[k] == cand_at(tones, k));
        assert(tone_matches(tones[k / 8], x));
    }
    crate::chords::lemma_spelling_distinct(c);
    // the three distinct classes, each a tone class of the three-tone
    // spelling, together exhaust it, so the root class (the first tone) is
    // among them
    assert(voice_class(w.0) == spec_root_of(c) || voice_class(w.1) == spec_root_of(c)
        || voice_class(w.2) == spec_root_of(c)) by {
        let t0 = spec_tone_note(tones[0]);
        let t1 = spec_tone_note(tones[1]);
        let t2 = spec_tone_note(tones[2]);
        assert(voice_class(w.0) == t0 || voice_class(w.0) == t1 || voice_class(w.0) == t2) by {
            let i = choose|i: int| 0 <= i < tones.len() && tone_matches(tones[i], w.0);
            assert(i == 0 || i == 1 || i == 2);
        }
        assert(voice_class(w.1) == t0 || voice_class(w.1) == t1 || voice_class(w.1) == t2) by {
            let i = choose|i: int| 0 <= i < tones.len() && tone_matches(tones[i], w.1);
            assert(i == 0 || i == 1 || i == 2);
        }
        assert(voice_class(w.2) == t0 || voice_class(w.2) == t1 || voice_class(w.2) == t2) by {
            let i = choose|i: int| 0 <= i < tones.len() && tone_matches(tones[i], w.2);
            assert(i == 0 || i == 1 || i == 2);
        }
    }
}

/// Octave arguments are accepted when inside `[1, 8]`; a missing octave
/// falls back to the default of 4.
pub open spec fn oct_ok(o: Option<usize>) -> bool {
    match o {
        None => true,
        Some(x) => 1 <= x <= 8,
    }
}

/// The octave actually used for a voice slot.
pub open spec fn oct_val(o: Option<usize>) -> int {
    match o {
        None => 4,
        Some(x) => x as int,
    }
}

/// Builds a voicing from a chord symbol and up to three octave choices:
/// the root voice, then the two remaining tones in spelling order. Octaves
/// default to 4; a supplied octave outside `[1, 8]` is rejected with an
/// error naming the offending slot, and an unparsable symbol is rejected
/// with a parse error. Success is owed exactly when the symbol parses and
/// every supplied octave is in range.
pub fn from_input(
    name: &str,
    root_oct: Option<usize>,
    voice_1_oct: Option<usize>,
    voice_2_oct: Option<usize>,
) -> (r: Result<ChordVoicing, ChordVoicingError>)
    ensures
        ({
            let parsed = crate::chords::spec_parse_chord(name@);
            match r {
                Ok(v) => {
                    &&& parsed == Some(v.chord_name)
                    &&& oct_ok(root_oct) && oct_ok(voice_1_oct) && oct_ok(voice_2_oct)
                    &&& v.voices.0 == spec_mk_voice(
                        spec_tone_degree(spec_spelling_of(v.chord_name)[0]),
                        spec_mk_note(
                            spec_tone_note(spec_spelling_of(v.chord_name)[0]),
                            oct_val(root_oct),
                        ),
                    )
                    &&& v.voices.1 == spec_mk_voice(
                        spec_tone_degree(spec_spelling_of(v.chord_name)[1]),
                        spec_mk_note(
                            spec_tone_note(spec_spelling_of(v.chord_name)[1]),
                            oct_val(voice_1_oct),
                        ),
                    )
                    &&& v.voices.2 == spec_mk_voice(
                        spec_tone_degree(spec_spelling_of(v.chord_name)[2]),
                        spec_mk_note(
                            spec_tone_note(spec_spelling_of(v.chord_name)[2]),
                            oct_val(voice_2_oct),
                        ),
                    )
                    &&& v.root == voice_note(v.voices.0)
                    &&& v.wf()
                },
                Err(e) => match e {
                    ChordVoicingError::ParseChordName(s) => parsed is None && s@ == name@,
                    ChordVoicingError::InvalidOct(o, lbl) => {
                        &&& parsed is Some
                        &&& if !oct_ok(root_oct) {
                            root_oct == Some(o) && lbl@ == "root"@
                        } else if !oct_ok(voice_1_oct) {
                            voice_1_oct == Some(o) && lbl@ == "voice 1"@
                        } else {
                            !oct_ok(voice_2_oct) && voice_2_oct == Some(o) && lbl@ == "voice 2"@
                        }
                    },
                },
            }
        }),
{
    let chord_name = match ChordName::try_from(name) {
        Ok(c) => c,
        Err(_) => {
            return Err(ChordVoicingError::ParseChordName(name.to_owned()));
        },
    };
    let spelling = ChordSpelling::of_chord(&chord_name);
    proof {
        crate::chords::lemma_spelling_distinct(chord_name);
    }
    let root_oct_v: usize = match root_oct {
        Some(ro) => {
            if ro < 1 || ro > 8 {
                return Err(ChordVoicingError::InvalidOct(ro, "root".to_owned()));
            }
            ro
        },
        None => 4,
    };
    let voice_1_oct_v: usize = match voice_1_oct {
        Some(vo) => {
            if vo < 1 || vo > 8 {
                return Err(ChordVoicingError::InvalidOct(vo, "voice 1".to_owned()));
            }
            vo
        },
        None => 4,
    };
    let voice_2_oct_v: usize = match voice_2_oct {
        Some(vo) => {
            if vo < 1 || vo > 8 {
                return Err(ChordVoicingError::InvalidOct(vo, "voice 2".to_owned()));
            }
            vo
        },
        None => 4,
    };
    let root_note_oct = NoteOct::from_note(spelling.spelling[0].note(), root_oct_v);
    let root_voice = ChordVoice::from_parts(&root_note_oct, &spelling.spelling[0]);
    let note_oct_1 = NoteOct::from_note(spelling.spelling[1].note(), voice_1_oct_v);
    let voice_1 = ChordVoice::from_parts(&note_oct_1, &spelling.spelling[1]);
    let note_oct_2 = NoteOct::from_note(spelling.spelling[2].note(), voice_2_oct_v);
    let voice_2 = ChordVoice::from_parts(&note_oct_2, &spelling.spelling[2]);
    let w0 = weight_of_voice(&root_voice);
    let w1 = weight_of_voice(&voice_1);
    let w2 = weight_of_voice(&voice_2);
    let note_weights: Vec<usize> = vec![w0, w1, w2];
    let v = ChordVoicing {
        chord_name,
        root: root_note_oct,
        voices: (root_voice, voice_1, voice_2),
        note_weights,
    };
    proof {
        let tones = spec_spelling_of(chord_name);
        assert(tone_matches(tones[0], v.voices.0));
        assert(tone_matches(tones[1], v.voices.1));
        assert(tone_matches(tones[2], v.voices.2));
        assert(v.note_weights@ =~= seq![
            spec_weight(voice_note(v.voices.0)) as usize,
            spec_weight(voice_note(v.voices.1)) as usize,
            spec_weight(voice_note(v.voices.2)) as usize,
        ]);
    }
    Ok(v)
}

impl Default for ChordVoicing {
    /// The fixed starting voicing: a C-major triad sounded C3, E3, G3.
    fn default() -> (v: Self)
        ensures
            v.wf(),
            v.chord_name == ChordName::C(ChordQuality::Maj),
            v.voices == (
                ChordVoice::Root(NoteOct::C(3)),
                ChordVoice::Third(NoteOct::E(3)),
                ChordVoice::Fifth(NoteOct::G(3)),
            ),
            v.root == NoteOct::C(3),
            v.note_weights@ == seq![24usize, 28usize, 31usize],
    {
        let root = NoteOct::C(3);
        let third = NoteOct::E(3);
        let fifth = NoteOct::G(3);
        let note_weights: Vec<usize> = vec![24, 28, 31];
        let v = ChordVoicing {
            chord_name: ChordName::C(ChordQuality::Maj),
            root,
            voices: (ChordVoice::Root(root), ChordVoice::Third(third), ChordVoice::Fifth(fifth)),
            note_weights,
        };
        proof {
            let tones = spec_spelling_of(v.chord_name);
            assert(tone_matches(tones[0], v.voices.0));
            assert(tone_matches(tones[1], v.voices.1));
            assert(tone_matches(tones[2], v.voices.2));
            assert(v.note_weights@ =~= seq![
                spec_weight(voice_note(v.voices.0)) as usize,
                spec_weight(voice_note(v.voices.1)) as usize,
                spec_weight(voice_note(v.voices.2)) as usize,
            ]);
        }
        v
    }
}

} // verus!
