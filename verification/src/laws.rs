//! Engine laws: the properties the voice-leading engine guarantees, stated
//! and proved over the specification functions that the engine's contracts
//! use.

use vstd::prelude::*;
use crate::chords::{
    spec_quality_of, spec_root_of, spec_spelling_of, spec_tone_note, ChordName, ChordQuality,
    ChordTone,
};
use crate::notes::{note_index, spec_note_of, spec_weight, wf_note};
use crate::voicings::{
    bc_choice, bc_fold, cand_at, cfg_choices, cfg_diff, cfg_valid, distinct_classes, entry_ok,
    hi_entry_directed, lemma_bc_entries, lemma_bc_entries_directed, lemma_cand_wf,
    lemma_candidates_distinct, lemma_winner_upto_props, lo_entry_directed, spec_abs_diff,
    spec_bcs, spec_candidates, spec_lead_choices, spec_lead_diff, spec_lead_voices, spec_leadable,
    spec_winner, spec_winner_index, tone_matches, voice_class, voice_note, voice_weight,
    BestChoices, ChordVoice, ChordVoicing,
};

verus! {

/// Distinctness invariant: every well-formed voicing (and so every voicing
/// the library returns) sounds three pairwise distinct pitch classes.
pub proof fn lemma_voicing_distinct_classes(v: ChordVoicing)
    requires
        v.wf(),
    ensures
        distinct_classes(v.voices.0, v.voices.1, v.voices.2),
{
}

/// Root correctness: the designated root note of a well-formed voicing
/// sounds the chord identity's root class, and is the note of one of the
/// three voices.
pub proof fn lemma_voicing_root_class(v: ChordVoicing)
    requires
        v.wf(),
    ensures
        spec_note_of(v.root) == spec_root_of(v.chord_name),
        v.root == voice_note(v.voices.0) || v.root == voice_note(v.voices.1) || v.root
            == voice_note(v.voices.2),
{
}

/// Optimality over the enumerated search space: no valid configuration
/// among the 64 the engine enumerates has a strictly smaller accumulated
/// distance than the one `voice_lead` realizes.
pub proof fn lemma_voice_lead_minimal_over_configs(v: ChordVoicing, c: ChordName, k: int)
    requires
        v.wf(),
        spec_leadable(v, c),
        0 <= k < 64,
        cfg_valid(cfg_choices(spec_bcs(v, c).0, spec_bcs(v, c).1, spec_bcs(v, c).2, k)),
    ensures
        spec_lead_diff(v, c) <= cfg_diff(
            cfg_choices(spec_bcs(v, c).0, spec_bcs(v, c).1, spec_bcs(v, c).2, k),
        ),
{
    let t = spec_bcs(v, c);
    lemma_winner_upto_props(t.0, t.1, t.2, 64);
}

/// Optimality over the retained choices: a valid realization that draws
/// each voice from that voice's four retained choices never beats the
/// voicing `voice_lead` returns.
pub proof fn lemma_voice_lead_optimal_over_retained(
    v: ChordVoicing,
    c: ChordName,
    j0: int,
    j1: int,
    j2: int,
)
    requires
        v.wf(),
        spec_leadable(v, c),
        0 <= j0 < 4,
        0 <= j1 < 4,
        0 <= j2 < 4,
        cfg_valid(
            (
                bc_choice(spec_bcs(v, c).0, j0),
                bc_choice(spec_bcs(v, c).1, j1),
                bc_choice(spec_bcs(v, c).2, j2),
            ),
        ),
    ensures
        spec_lead_diff(v, c) <= cfg_diff(
            (
                bc_choice(spec_bcs(v, c).0, j0),
                bc_choice(spec_bcs(v, c).1, j1),
                bc_choice(spec_bcs(v, c).2, j2),
            ),
        ),
{
    let k = 16 * j0 + 4 * j1 + j2;
    vstd::arithmetic::div_mod::lemma_fundamental_div_mod_converse(k, 16, j0, 4 * j1 + j2);
    vstd::arithmetic::div_mod::lemma_fundamental_div_mod_converse(4 * j1 + j2, 4, j1, j2);
    vstd::arithmetic::div_mod::lemma_fundamental_div_mod_converse(k, 4, 4 * j0 + j1, j2);
    let t = spec_bcs(v, c);
    assert(cfg_choices(t.0, t.1, t.2, k) == (bc_choice(t.0, j0), bc_choice(t.1, j1), bc_choice(
        t.2,
        j2,
    )));
    lemma_voice_lead_minimal_over_configs(v, c, k);
}

/// The winning configuration's accumulated distance is exactly the total
/// weight movement of the three returned voices relative to the prior
/// voicing.
pub proof fn lemma_lead_diff_is_total_movement(v: ChordVoicing, c: ChordName)
    requires
        v.wf(),
        spec_leadable(v, c),
    ensures
        ({
            let w = spec_lead_voices(v, c);
            spec_lead_diff(v, c) == spec_abs_diff(voice_weight(w.0), voice_weight(v.voices.0))
                + spec_abs_diff(voice_weight(w.1), voice_weight(v.voices.1)) + spec_abs_diff(
                voice_weight(w.2),
                voice_weight(v.voices.2),
            )
        }),
{
    let t = spec_bcs(v, c);
    let tones = spec_spelling_of(c);
    let cands = spec_candidates(tones);
    let ki = spec_winner_index(v, c);
    lemma_winner_upto_props(t.0, t.1, t.2, 64);
    assert forall|k: int| 0 <= k < cands.len() implies wf_note(
        voice_note(#[trigger] cands[k]),
    ) by {
        lemma_cand_wf(tones, k);
    }
    lemma_bc_entries(v.voices.0, cands);
    lemma_bc_entries(v.voices.1, cands);
    lemma_bc_entries(v.voices.2, cands);
    let ch = spec_lead_choices(v, c);
    assert(cfg_diff(ch) < usize::MAX as int);
    assert(ch.0.diff < usize::MAX && ch.1.diff < usize::MAX && ch.2.diff < usize::MAX);
    assert(0 <= ki / 16 < 4 && 0 <= (ki % 16) / 4 < 4 && 0 <= ki % 4 < 4) by {
        vstd::arithmetic::div_mod::lemma_fundamental_div_mod(ki, 16);
        vstd::arithmetic::div_mod::lemma_mod_bound(ki, 16);
        vstd::arithmetic::div_mod::lemma_div_pos_is_pos(ki, 16);
        vstd::arithmetic::div_mod::lemma_fundamental_div_mod(ki % 16, 4);
        vstd::arithmetic::div_mod::lemma_mod_bound(ki % 16, 4);
        vstd::arithmetic::div_mod::lemma_div_pos_is_pos(ki % 16, 4);
        vstd::arithmetic::div_mod::lemma_mod_bound(ki, 4);
    }
    assert(entry_ok(v.voices.0, cands, bc_choice(t.0, ki / 16)));
    assert(entry_ok(v.voices.1, cands, bc_choice(t.1, (ki % 16) / 4)));
    assert(entry_ok(v.voices.2, cands, bc_choice(t.2, ki % 4)));
    crate::notes::lemma_weight_bounds(voice_note(v.voices.0));
    crate::notes::lemma_weight_bounds(voice_note(v.voices.1));
    crate::notes::lemma_weight_bounds(voice_note(v.voices.2));
    assert forall|x: ChordVoice|
        (exists|k: int| 0 <= k < cands.len() && cands[k] == x) implies wf_note(
        voice_note(x),
    ) by {
        let k = choose|k: int| 0 <= k < cands.len() && cands[k] == x;
        lemma_cand_wf(tones, k);
    }
    crate::notes::lemma_weight_bounds(voice_note(spec_lead_voices(v, c).0));
    crate::notes::lemma_weight_bounds(voice_note(spec_lead_voices(v, c).1));
    crate::notes::lemma_weight_bounds(voice_note(spec_lead_voices(v, c).2));
}

/// The largest of a voice's four candidate distances.
pub open spec fn max_choice_diff(bc: BestChoices) -> int {
    let a = if bc.lo.0.diff >= bc.lo.1.diff {
        bc.lo.0.diff
    } else {
        bc.lo.1.diff
    };
    let b = if bc.hi.0.diff >= bc.hi.1.diff {
        bc.hi.0.diff
    } else {
        bc.hi.1.diff
    };
    if a >= b {
        a as int
    } else {
        b as int
    }
}

/// Movement bound: each voice `voice_lead` returns moved by no more than
/// the largest of the four candidate distances considered for that voice.
pub proof fn lemma_voice_movement_bound(v: ChordVoicing, c: ChordName)
    requires
        v.wf(),
        spec_leadable(v, c),
    ensures
        ({
            let t = spec_bcs(v, c);
            let w = spec_lead_voices(v, c);
            &&& spec_abs_diff(voice_weight(w.0), voice_weight(v.voices.0)) <= max_choice_diff(t.0)
            &&& spec_abs_diff(voice_weight(w.1), voice_weight(v.voices.1)) <= max_choice_diff(t.1)
            &&& spec_abs_diff(voice_weight(w.2), voice_weight(v.voices.2)) <= max_choice_diff(t.2)
        }),
{
    let t = spec_bcs(v, c);
    let tones = spec_spelling_of(c);
    let cands = spec_candidates(tones);
    let ki = spec_winner_index(v, c);
    lemma_winner_upto_props(t.0, t.1, t.2, 64);
    assert forall|k: int| 0 <= k < cands.len() implies wf_note(
        voice_note(#[trigger] cands[k]),
    ) by {
        lemma_cand_wf(tones, k);
    }
    lemma_bc_entries(v.voices.0, cands);
    lemma_bc_entries(v.voices.1, cands);
    lemma_bc_entries(v.voices.2, cands);
    let ch = spec_lead_choices(v, c);
    assert(cfg_diff(ch) < usize::MAX as int);
    assert(ch.0.diff < usize::MAX && ch.1.diff < usize::MAX && ch.2.diff < usize::MAX);
    assert(ch.0 == bc_choice(t.0, ki / 16));
    assert(ch.1 == bc_choice(t.1, (ki % 16) / 4));
    assert(ch.2 == bc_choice(t.2, ki % 4));
    assert(0 <= ki / 16 < 4 && 0 <= (ki % 16) / 4 < 4 && 0 <= ki % 4 < 4) by {
        vstd::arithmetic::div_mod::lemma_fundamental_div_mod(ki, 16);
        vstd::arithmetic::div_mod::lemma_mod_bound(ki, 16);
        vstd::arithmetic::div_mod::lemma_div_pos_is_pos(ki, 16);
        vstd::arithmetic::div_mod::lemma_fundamental_div_mod(ki % 16, 4);
        vstd::arithmetic::div_mod::lemma_mod_bound(ki % 16, 4);
        vstd::arithmetic::div_mod::lemma_div_pos_is_pos(ki % 16, 4);
        vstd::arithmetic::div_mod::lemma_mod_bound(ki, 4);
    }
    lemma_choice_le_max(t.0, ki / 16);
    lemma_choice_le_max(t.1, (ki % 16) / 4);
    lemma_choice_le_max(t.2, ki % 4);
}

/// Each of the four choices is bounded by the largest of them.
proof fn lemma_choice_le_max(bc: BestChoices, j: int)
    requires
        0 <= j < 4,
    ensures
        bc_choice(bc, j).diff as int <= max_choice_diff(bc),
{
}

/// Determinism: `voice_lead`'s contract pins every observable field of its
/// result to specification functions of the inputs alone, so any two
/// results meeting that contract for the same inputs agree on every field.
pub proof fn lemma_voice_lead_deterministic(
    v: ChordVoicing,
    c: ChordName,
    r1: ChordVoicing,
    r2: ChordVoicing,
)
    requires
        r1.chord_name == c,
        r1.voices == spec_lead_voices(v, c),
        r1.root == crate::voicings::spec_lead_root(v, c),
        r1.note_weights@ == seq![
            spec_weight(voice_note(spec_lead_voices(v, c).0)) as usize,
            spec_weight(voice_note(spec_lead_voices(v, c).1)) as usize,
            spec_weight(voice_note(spec_lead_voices(v, c).2)) as usize,
        ],
        r2.chord_name == c,
        r2.voices == spec_lead_voices(v, c),
        r2.root == crate::voicings::spec_lead_root(v, c),
        r2.note_weights@ == seq![
            spec_weight(voice_note(spec_lead_voices(v, c).0)) as usize,
            spec_weight(voice_note(spec_lead_voices(v, c).1)) as usize,
            spec_weight(voice_note(spec_lead_voices(v, c).2)) as usize,
        ],
    ensures
        r1.chord_name == r2.chord_name,
        r1.voices == r2.voices,
        r1.root == r2.root,
        r1.note_weights@ == r2.note_weights@,
{
}

/// An old voice that already realizes a tone of the target spelling is
/// itself among the candidates: its closest non-ascending choice sounds
/// its own note at distance zero.
proof fn lemma_own_note_is_candidate(old: ChordVoice, c: ChordName)
    requires
        wf_note(voice_note(old)),
        crate::voicings::voice_in_spelling(old, spec_spelling_of(c)),
    ensures
        ({
            let bc = bc_fold(old, spec_candidates(spec_spelling_of(c)));
            bc.lo.0.diff == 0 && voice_note(bc.lo.0.voice) == voice_note(old)
        }),
{
    let tones = spec_spelling_of(c);
    let cands = spec_candidates(tones);
    let ti = choose|i: int| 0 <= i < tones.len() && tone_matches(tones[i], old);
    let oct = crate::notes::spec_oct_of(voice_note(old));
    let k = ti * 8 + (oct - 1);
    vstd::arithmetic::div_mod::lemma_fundamental_div_mod_converse(k, 8, ti, oct - 1);
    assert(cands[k] == cand_at(tones, k));
    assert(voice_note(cands[k]) == crate::notes::spec_mk_note(
        crate::chords::spec_tone_note(tones[ti]),
        oct,
    ));
    crate::notes::lemma_note_oct_parts(voice_note(cands[k]), voice_note(old));
    assert(cand_below(old, cands, k) && cand_diff(old, cands, k) == 0);
    lemma_bc_closest_first(old, cands);
    let bc = bc_fold(old, cands);
    assert(bc.lo.0.diff == 0);
    assert forall|j: int| 0 <= j < cands.len() implies wf_note(
        voice_note(#[trigger] cands[j]),
    ) by {
        lemma_cand_wf(tones, j);
    }
    lemma_bc_entries(old, cands);
    assert(entry_ok(old, cands, bc_choice(bc, 0)));
    crate::notes::lemma_weight_injective(voice_note(bc.lo.0.voice), voice_note(old));
}

/// Idempotent re-voicing: leading a well-formed voicing to its own current
/// chord identity is always possible, moves no voice (total movement 0),
/// and keeps every voice's sounding note.
pub proof fn lemma_revoice_same_chord(v: ChordVoicing)
    requires
        v.wf(),
    ensures
        spec_leadable(v, v.chord_name),
        spec_lead_diff(v, v.chord_name) == 0,
        voice_note(spec_lead_voices(v, v.chord_name).0) == voice_note(v.voices.0),
        voice_note(spec_lead_voices(v, v.chord_name).1) == voice_note(v.voices.1),
        voice_note(spec_lead_voices(v, v.chord_name).2) == voice_note(v.voices.2),
{
    let c = v.chord_name;
    let tones = spec_spelling_of(c);
    let cands = spec_candidates(tones);
    let t = spec_bcs(v, c);
    lemma_own_note_is_candidate(v.voices.0, c);
    lemma_own_note_is_candidate(v.voices.1, c);
    lemma_own_note_is_candidate(v.voices.2, c);
    // configuration 0 takes each voice's zero-distance choice and is valid
    let zero = cfg_choices(t.0, t.1, t.2, 0);
    assert(zero == (t.0.lo.0, t.1.lo.0, t.2.lo.0));
    assert(cfg_valid(zero));
    assert(cfg_diff(zero) == 0);
    lemma_winner_upto_props(t.0, t.1, t.2, 64);
    let win = spec_winner(t.0, t.1, t.2);
    assert(win is Some);
    let ki = spec_winner_index(v, c);
    let ch = spec_lead_choices(v, c);
    assert(cfg_diff(ch) <= 0);
    assert(cfg_diff(ch) == 0);
    assert(spec_leadable(v, c));
    // a zero total distance forces each chosen choice to distance zero
    assert(ch.0.diff == 0 && ch.1.diff == 0 && ch.2.diff == 0);
    assert forall|j: int| 0 <= j < cands.len() implies wf_note(
        voice_note(#[trigger] cands[j]),
    ) by {
        lemma_cand_wf(tones, j);
    }
    lemma_bc_entries(v.voices.0, cands);
    lemma_bc_entries(v.voices.1, cands);
    lemma_bc_entries(v.voices.2, cands);
    assert(0 <= ki / 16 < 4 && 0 <= (ki % 16) / 4 < 4 && 0 <= ki % 4 < 4) by {
        vstd::arithmetic::div_mod::lemma_fundamental_div_mod(ki, 16);
        vstd::arithmetic::div_mod::lemma_mod_bound(ki, 16);
        vstd::arithmetic::div_mod::lemma_div_pos_is_pos(ki, 16);
        vstd::arithmetic::div_mod::lemma_fundamental_div_mod(ki % 16, 4);
        vstd::arithmetic::div_mod::lemma_mod_bound(ki % 16, 4);
        vstd::arithmetic::div_mod::lemma_div_pos_is_pos(ki % 16, 4);
        vstd::arithmetic::div_mod::lemma_mod_bound(ki, 4);
    }
    assert(entry_ok(v.voices.0, cands, bc_choice(t.0, ki / 16)));
    assert(entry_ok(v.voices.1, cands, bc_choice(t.1, (ki % 16) / 4)));
    assert(entry_ok(v.voices.2, cands, bc_choice(t.2, ki % 4)));
    let w = spec_lead_voices(v, c);
    crate::notes::lemma_weight_bounds(voice_note(v.voices.0));
    crate::notes::lemma_weight_bounds(voice_note(v.voices.1));
    crate::notes::lemma_weight_bounds(voice_note(v.voices.2));
    assert forall|x: ChordVoice|
        (exists|k: int| 0 <= k < cands.len() && cands[k] == x) implies wf_note(
        voice_note(x),
    ) by {
        let k = choose|k: int| 0 <= k < cands.len() && cands[k] == x;
        lemma_cand_wf(tones, k);
    }
    crate::notes::lemma_weight_injective(voice_note(w.0), voice_note(v.voices.0));
    crate::notes::lemma_weight_injective(voice_note(w.1), voice_note(v.voices.1));
    crate::notes::lemma_weight_injective(voice_note(w.2), voice_note(v.voices.2));
}

/// The candidate's distance from an old voice, and whether it does not
/// ascend past it.
pub open spec fn cand_diff(old: ChordVoice, cands: Seq<ChordVoice>, k: int) -> int {
    spec_abs_diff(voice_weight(cands[k]), voice_weight(old))
}

/// Whether candidate `k` lies at or below the old voice's weight.
pub open spec fn cand_below(old: ChordVoice, cands: Seq<ChordVoice>, k: int) -> bool {
    voice_weight(cands[k]) <= voice_weight(old)
}

/// The retained non-ascending choice `lo.0` is at least as close as every
/// non-ascending candidate, and the ascending choice `hi.0` at least as
/// close as every ascending candidate: the engine keeps the closest
/// candidate of each direction.
pub proof fn lemma_bc_closest_first(old: ChordVoice, cands: Seq<ChordVoice>)
    ensures
        ({
            let bc = bc_fold(old, cands);
            &&& bc.lo.0.diff <= bc.lo.1.diff
            &&& bc.hi.0.diff <= bc.hi.1.diff
            &&& forall|k: int|
                0 <= k < cands.len() && #[trigger] cand_below(old, cands, k) ==> cand_diff(
                    old,
                    cands,
                    k,
                ) >= bc.lo.0.diff as int
            &&& forall|k: int|
                0 <= k < cands.len() && !#[trigger] cand_below(old, cands, k) ==> cand_diff(
                    old,
                    cands,
                    k,
                ) >= bc.hi.0.diff as int
        }),
    decreases cands.len(),
{
    if cands.len() > 0 {
        lemma_bc_closest_first(old, cands.drop_last());
        let n = cands.len() as int;
        assert(forall|k: int| 0 <= k < n - 1 ==> cands.drop_last()[k] == cands[k]);
        assert(forall|k: int|
            0 <= k < n - 1 ==> #[trigger] cand_below(old, cands, k) == cand_below(
                old,
                cands.drop_last(),
                k,
            ) && cand_diff(old, cands, k) == cand_diff(old, cands.drop_last(), k));
        assert(cands.last() == cands[n - 1]);
    }
}

/// The engine also keeps the second-closest candidate of each direction:
/// of any two distinct non-ascending candidates, at least one lies at or
/// beyond `lo.1`, and likewise for ascending candidates and `hi.1`.
pub proof fn lemma_bc_closest_second(old: ChordVoice, cands: Seq<ChordVoice>)
    ensures
        ({
            let bc = bc_fold(old, cands);
            &&& forall|k1: int, k2: int|
                0 <= k1 < k2 < cands.len() && #[trigger] cand_below(old, cands, k1)
                    && #[trigger] cand_below(old, cands, k2) ==> cand_diff(old, cands, k1)
                    >= bc.lo.1.diff as int || cand_diff(old, cands, k2) >= bc.lo.1.diff as int
            &&& forall|k1: int, k2: int|
                0 <= k1 < k2 < cands.len() && !#[trigger] cand_below(old, cands, k1)
                    && !#[trigger] cand_below(old, cands, k2) ==> cand_diff(old, cands, k1)
                    >= bc.hi.1.diff as int || cand_diff(old, cands, k2) >= bc.hi.1.diff as int
        }),
    decreases cands.len(),
{
    lemma_bc_closest_first(old, cands);
    if cands.len() > 0 {
        lemma_bc_closest_first(old, cands.drop_last());
        lemma_bc_closest_second(old, cands.drop_last());
        let n = cands.len() as int;
        assert(forall|k: int| 0 <= k < n - 1 ==> cands.drop_last()[k] == cands[k]);
        assert(forall|k: int|
            0 <= k < n - 1 ==> #[trigger] cand_below(old, cands, k) == cand_below(
                old,
                cands.drop_last(),
                k,
            ) && cand_diff(old, cands, k) == cand_diff(old, cands.drop_last(), k));
        assert(cands.last() == cands[n - 1]);
        let prev = bc_fold(old, cands.drop_last());
        let bc = bc_fold(old, cands);
        let d = spec_abs_diff(voice_weight(cands[n - 1]), voice_weight(old));
        if cand_below(old, cands, n - 1) {
            assert(cand_diff(old, cands, n - 1) == d);
            assert forall|k1: int, k2: int|
                0 <= k1 < k2 < n && #[trigger] cand_below(old, cands, k1) && #[trigger] cand_below(
                    old,
                    cands,
                    k2,
                ) implies cand_diff(old, cands, k1) >= bc.lo.1.diff as int || cand_diff(
                old,
                cands,
                k2,
            ) >= bc.lo.1.diff as int by {
                if k2 < n - 1 {
                    assert(cand_diff(old, cands, k1) >= prev.lo.1.diff as int || cand_diff(
                        old,
                        cands,
                        k2,
                    ) >= prev.lo.1.diff as int);
                } else {
                    assert(cand_diff(old, cands, k1) >= prev.lo.0.diff as int);
                }
            }
        } else {
            assert forall|k1: int, k2: int|
                0 <= k1 < k2 < n && !#[trigger] cand_below(old, cands, k1)
                    && !#[trigger] cand_below(old, cands, k2) implies cand_diff(old, cands, k1)
                >= bc.hi.1.diff as int || cand_diff(old, cands, k2) >= bc.hi.1.diff as int by {
                if k2 < n - 1 {
                    assert(cand_diff(old, cands, k1) >= prev.hi.1.diff as int || cand_diff(
                        old,
                        cands,
                        k2,
                    ) >= prev.hi.1.diff as int);
                } else {
                    assert(cand_diff(old, cands, k1) >= prev.hi.0.diff as int);
                }
            }
        }
    }
}

/// In the register interior, each tone of the target has a candidate at or
/// below the old voice's weight and one strictly above it, at the
/// complementary distances `bb` and `12 - bb`, and no candidate of that
/// tone comes closer from its direction.
proof fn lemma_class_reach(old: ChordVoice, tones: Seq<ChordTone>, ti: int)
    requires
        tones.len() == 3,
        11 <= voice_weight(old) <= 83,
        0 <= ti < 3,
    ensures
        ({
            let ow = voice_weight(old);
            let idx = note_index(spec_tone_note(tones[ti]));
            let bb = (ow - idx) % 12;
            &&& 0 <= bb < 12
            &&& exists|k: int|
                0 <= k < 24 && k / 8 == ti && voice_weight(#[trigger] cand_at(tones, k)) == ow
                    - bb
            &&& exists|k: int|
                0 <= k < 24 && k / 8 == ti && voice_weight(#[trigger] cand_at(tones, k)) == ow + (
                12 - bb)
            &&& forall|k: int|
                0 <= k < 24 && k / 8 == ti && voice_weight(#[trigger] cand_at(tones, k)) <= ow
                    ==> ow - voice_weight(cand_at(tones, k)) >= bb
            &&& forall|k: int|
                0 <= k < 24 && k / 8 == ti && voice_weight(#[trigger] cand_at(tones, k)) > ow
                    ==> voice_weight(cand_at(tones, k)) - ow >= 12 - bb
        }),
{
    let ow = voice_weight(old);
    let idx = note_index(spec_tone_note(tones[ti]));
    assert(0 <= idx < 12);
    let q = (ow - idx) / 12;
    let bb = (ow - idx) % 12;
    vstd::arithmetic::div_mod::lemma_fundamental_div_mod(ow - idx, 12);
    vstd::arithmetic::div_mod::lemma_mod_bound(ow - idx, 12);
    vstd::arithmetic::div_mod::lemma_div_pos_is_pos(ow - idx, 12);
    assert(ow - idx == 12 * q + bb);
    assert(q <= 6);
    let kb = ti * 8 + q;
    vstd::arithmetic::div_mod::lemma_fundamental_div_mod_converse(kb, 8, ti, q);
    lemma_cand_wf(tones, kb);
    crate::notes::lemma_mk_note_facts(spec_tone_note(tones[ti]), q + 1);
    assert(voice_note(cand_at(tones, kb)) == crate::notes::spec_mk_note(
        spec_tone_note(tones[ti]),
        q + 1,
    ));
    assert(voice_weight(cand_at(tones, kb)) == ow - bb);
    let ka = ti * 8 + q + 1;
    vstd::arithmetic::div_mod::lemma_fundamental_div_mod_converse(ka, 8, ti, q + 1);
    lemma_cand_wf(tones, ka);
    crate::notes::lemma_mk_note_facts(spec_tone_note(tones[ti]), q + 2);
    assert(voice_note(cand_at(tones, ka)) == crate::notes::spec_mk_note(
        spec_tone_note(tones[ti]),
        q + 2,
    ));
    assert(voice_weight(cand_at(tones, ka)) == ow + (12 - bb));
    assert forall|k: int|
        0 <= k < 24 && k / 8 == ti && voice_weight(#[trigger] cand_at(tones, k))
            <= ow implies ow - voice_weight(cand_at(tones, k)) >= bb by {
        lemma_cand_wf(tones, k);
        vstd::arithmetic::div_mod::lemma_fundamental_div_mod(k, 8);
        vstd::arithmetic::div_mod::lemma_mod_bound(k, 8);
        crate::notes::lemma_mk_note_facts(spec_tone_note(tones[ti]), k % 8 + 1);
        assert(voice_note(cand_at(tones, k)) == crate::notes::spec_mk_note(
            spec_tone_note(tones[ti]),
            k % 8 + 1,
        ));
        assert(voice_weight(cand_at(tones, k)) == (k % 8) * 12 + idx);
    }
    assert forall|k: int|
        0 <= k < 24 && k / 8 == ti && voice_weight(#[trigger] cand_at(tones, k))
            > ow implies voice_weight(cand_at(tones, k)) - ow >= 12 - bb by {
        lemma_cand_wf(tones, k);
        vstd::arithmetic::div_mod::lemma_fundamental_div_mod(k, 8);
        vstd::arithmetic::div_mod::lemma_mod_bound(k, 8);
        crate::notes::lemma_mk_note_facts(spec_tone_note(tones[ti]), k % 8 + 1);
        assert(voice_note(cand_at(tones, k)) == crate::notes::spec_mk_note(
            spec_tone_note(tones[ti]),
            k % 8 + 1,
        ));
        assert(voice_weight(cand_at(tones, k)) == (k % 8) * 12 + idx);
    }
}

/// Two distinct candidates of the same tone lie a full octave or more
/// apart.
proof fn lemma_same_tone_far(tones: Seq<ChordTone>, k0: int, k1: int)
    requires
        tones.len() == 3,
        0 <= k0 < 24,
        0 <= k1 < 24,
        k0 / 8 == k1 / 8,
        cand_at(tones, k0) != cand_at(tones, k1),
    ensures
        voice_weight(cand_at(tones, k0)) - voice_weight(cand_at(tones, k1)) >= 12 || voice_weight(
            cand_at(tones, k1),
        ) - voice_weight(cand_at(tones, k0)) >= 12,
{
    vstd::arithmetic::div_mod::lemma_fundamental_div_mod(k0, 8);
    vstd::arithmetic::div_mod::lemma_mod_bound(k0, 8);
    vstd::arithmetic::div_mod::lemma_fundamental_div_mod(k1, 8);
    vstd::arithmetic::div_mod::lemma_mod_bound(k1, 8);
    lemma_cand_wf(tones, k0);
    lemma_cand_wf(tones, k1);
    crate::notes::lemma_mk_note_facts(spec_tone_note(tones[k0 / 8]), k0 % 8 + 1);
    crate::notes::lemma_mk_note_facts(spec_tone_note(tones[k1 / 8]), k1 % 8 + 1);
    assert(voice_note(cand_at(tones, k0)) == crate::notes::spec_mk_note(
        spec_tone_note(tones[k0 / 8]),
        k0 % 8 + 1,
    ));
    assert(voice_note(cand_at(tones, k1)) == crate::notes::spec_mk_note(
        spec_tone_note(tones[k1 / 8]),
        k1 % 8 + 1,
    ));
    assert(voice_weight(cand_at(tones, k0)) == (k0 % 8) * 12 + note_index(
        spec_tone_note(tones[k0 / 8]),
    ));
    assert(voice_weight(cand_at(tones, k1)) == (k1 % 8) * 12 + note_index(
        spec_tone_note(tones[k1 / 8]),
    ));
    assert(k0 % 8 != k1 % 8);
}

/// The non-ascending distance from an old voice to the nearest candidate
/// of a tone: its pitch-class interval below the voice.
spec fn tone_bb(old: ChordVoice, tones: Seq<ChordTone>, ti: int) -> int {
    (voice_weight(old) - note_index(spec_tone_note(tones[ti]))) % 12
}

/// The three tones' below-distances from a voice, written through the
/// root's below-distance `m` and the quality's offsets.
proof fn lemma_bb_of_tones(old: ChordVoice, c: ChordName)
    requires
        11 <= voice_weight(old) <= 83,
    ensures
        ({
            let tones = spec_spelling_of(c);
            let m = tone_bb(old, tones, 0);
            let offs = crate::chords::quality_offsets(spec_quality_of(c));
            &&& 0 <= m < 12
            &&& tone_bb(old, tones, 1) == (if m >= offs.0 {
                m - offs.0
            } else {
                m - offs.0 + 12
            })
            &&& tone_bb(old, tones, 2) == (if m >= offs.1 {
                m - offs.1
            } else {
                m - offs.1 + 12
            })
        }),
{
    let tones = spec_spelling_of(c);
    let ow = voice_weight(old);
    let r = spec_root_of(c);
    let ir = note_index(r);
    assert(0 <= ir < 12);
    let offs = crate::chords::quality_offsets(spec_quality_of(c));
    vstd::arithmetic::div_mod::lemma_fundamental_div_mod(ow - ir, 12);
    vstd::arithmetic::div_mod::lemma_mod_bound(ow - ir, 12);
    let qr = (ow - ir) / 12;
    let m = (ow - ir) % 12;
    assert(spec_tone_note(tones[0]) == r);
    assert(tone_bb(old, tones, 0) == m);
    lemma_bb_of_offset_tone(ow, ir, qr, m, offs.0, note_index(spec_tone_note(tones[1])));
    lemma_bb_of_offset_tone(ow, ir, qr, m, offs.1, note_index(spec_tone_note(tones[2])));
}

/// Helper: the below-distance of a tone `off` semitones above the root.
proof fn lemma_bb_of_offset_tone(ow: int, ir: int, qr: int, m: int, off: int, it: int)
    requires
        0 <= ir < 12,
        0 <= m < 12,
        2 <= off <= 11,
        ow - ir == 12 * qr + m,
        it == (if ir + off < 12 {
            ir + off
        } else {
            ir + off - 12
        }),
    ensures
        (ow - it) % 12 == (if m >= off {
            m - off
        } else {
            m - off + 12
        }),
{
    if ir + off < 12 {
        if m >= off {
            vstd::arithmetic::div_mod::lemma_fundamental_div_mod_converse(ow - it, 12, qr, m - off);
        } else {
            vstd::arithmetic::div_mod::lemma_fundamental_div_mod_converse(
                ow - it,
                12,
                qr - 1,
                m - off + 12,
            );
        }
    } else {
        if m >= off {
            vstd::arithmetic::div_mod::lemma_fundamental_div_mod_converse(
                ow - it,
                12,
                qr + 1,
                m - off,
            );
        } else {
            vstd::arithmetic::div_mod::lemma_fundamental_div_mod_converse(
                ow - it,
                12,
                qr,
                m - off + 12,
            );
        }
    }
}

/// No chord's three tones all sit seven or more semitones below a voice:
/// every quality's offsets leave some tone within six.
proof fn lemma_no_far_cluster(old: ChordVoice, c: ChordName)
    requires
        11 <= voice_weight(old) <= 83,
    ensures
        ({
            let tones = spec_spelling_of(c);
            tone_bb(old, tones, 0) <= 6 || tone_bb(old, tones, 1) <= 6 || tone_bb(old, tones, 2)
                <= 6
        }),
{
    lemma_bb_of_tones(old, c);
}

/// The only chords whose three tones all sit within five semitones below a
/// voice are major-seventh and minor-seventh chords whose third the voice
/// doubles exactly: the third then sits at distance zero and the seventh at
/// five.
proof fn lemma_near_cluster_shape(old: ChordVoice, c: ChordName)
    requires
        11 <= voice_weight(old) <= 83,
        tone_bb(old, spec_spelling_of(c), 0) <= 5,
        tone_bb(old, spec_spelling_of(c), 1) <= 5,
        tone_bb(old, spec_spelling_of(c), 2) <= 5,
    ensures
        spec_quality_of(c) == ChordQuality::MajSev || spec_quality_of(c) == ChordQuality::MinSev,
        tone_bb(old, spec_spelling_of(c), 1) == 0,
        tone_bb(old, spec_spelling_of(c), 2) == 5,
        tone_bb(old, spec_spelling_of(c), 0) == crate::chords::quality_offsets(
            spec_quality_of(c),
        ).0,
{
    lemma_bb_of_tones(old, c);
}

/// Distinct tones of a chord sit at distinct below-distances from a voice.
proof fn lemma_bbs_distinct(old: ChordVoice, c: ChordName, t1: int, t2: int)
    requires
        0 <= t1 < 3,
        0 <= t2 < 3,
        t1 != t2,
    ensures
        tone_bb(old, spec_spelling_of(c), t1) != tone_bb(old, spec_spelling_of(c), t2),
{
    let tones = spec_spelling_of(c);
    let ow = voice_weight(old);
    crate::chords::lemma_spelling_distinct(c);
    let i1 = note_index(spec_tone_note(tones[t1]));
    let i2 = note_index(spec_tone_note(tones[t2]));
    crate::notes::lemma_note_index_inverse(spec_tone_note(tones[t1]));
    crate::notes::lemma_note_index_inverse(spec_tone_note(tones[t2]));
    assert(i1 != i2);
    vstd::arithmetic::div_mod::lemma_fundamental_div_mod(ow - i1, 12);
    vstd::arithmetic::div_mod::lemma_fundamental_div_mod(ow - i2, 12);
    vstd::arithmetic::div_mod::lemma_mod_bound(ow - i1, 12);
    vstd::arithmetic::div_mod::lemma_mod_bound(ow - i2, 12);
    if (ow - i1) % 12 == (ow - i2) % 12 {
        assert(i2 - i1 == 12 * ((ow - i2) / 12 - (ow - i1) / 12));
        assert(false);
    }
}

/// The other two tone indices beside `ti`.
spec fn oth1(ti: int) -> int {
    if ti == 0 {
        1
    } else {
        0
    }
}

spec fn oth2(ti: int) -> int {
    if ti == 2 {
        1
    } else {
        2
    }
}

/// The cost at which a voice's four retained choices offer a tone: the
/// nearest-below tone at its below-distance, the farthest-below tone at
/// its above-distance, and the middle tone at the better of its two
/// directions.
spec fn slot_bound(old: ChordVoice, tones: Seq<ChordTone>, ti: int) -> int {
    let bb = tone_bb(old, tones, ti);
    let p = tone_bb(old, tones, oth1(ti));
    let q = tone_bb(old, tones, oth2(ti));
    if bb < p && bb < q {
        bb
    } else if bb > p && bb > q {
        12 - bb
    } else if bb <= 12 - bb {
        bb
    } else {
        12 - bb
    }
}

/// The nearest-below tone is held by the closest non-ascending slot at its
/// below-distance.
#[verifier::rlimit(100)]
proof fn lemma_slot_min(old: ChordVoice, c: ChordName, ti: int)
    requires
        wf_note(voice_note(old)),
        11 <= voice_weight(old) <= 83,
        0 <= ti < 3,
        tone_bb(old, spec_spelling_of(c), ti) < tone_bb(old, spec_spelling_of(c), oth1(ti)),
        tone_bb(old, spec_spelling_of(c), ti) < tone_bb(old, spec_spelling_of(c), oth2(ti)),
    ensures
        ({
            let tones = spec_spelling_of(c);
            let bc = bc_fold(old, spec_candidates(tones));
            bc.lo.0.diff as int <= tone_bb(old, tones, ti) && bc.lo.0.diff < usize::MAX
                && voice_class(bc.lo.0.voice) == spec_tone_note(tones[ti])
        }),
{
    let tones = spec_spelling_of(c);
    let cands = spec_candidates(tones);
    let bc = bc_fold(old, cands);
    let ow = voice_weight(old);
    let bb = tone_bb(old, tones, ti);
    assert forall|k: int| 0 <= k < cands.len() implies wf_note(
        voice_note(#[trigger] cands[k]),
    ) by {
        lemma_cand_wf(tones, k);
    }
    assert forall|k1: int, k2: int| 0 <= k1 < k2 < cands.len() implies cands[k1] != cands[k2] by {
        lemma_candidates_distinct(tones, k1, k2);
    }
    lemma_bc_entries(old, cands);
    lemma_bc_entries_directed(old, cands);
    lemma_bc_closest_first(old, cands);
    lemma_class_reach(old, tones, 0);
    lemma_class_reach(old, tones, 1);
    lemma_class_reach(old, tones, 2);
    vstd::arithmetic::div_mod::lemma_mod_bound(ow - note_index(spec_tone_note(tones[ti])), 12);
    let kb = choose|k: int|
        0 <= k < 24 && k / 8 == ti && voice_weight(#[trigger] cand_at(tones, k)) == ow - bb;
    assert(cands[kb] == cand_at(tones, kb));
    lemma_cand_wf(tones, kb);
    assert(cand_below(old, cands, kb) && cand_diff(old, cands, kb) == bb);
    assert(bc.lo.0.diff as int <= bb);
    assert(bc.lo.0.diff < usize::MAX);
    assert(entry_ok(old, cands, bc_choice(bc, 0)));
    let k0 = choose|k: int| 0 <= k < cands.len() && cands[k] == bc.lo.0.voice;
    lemma_cand_wf(tones, k0);
    assert(lo_entry_directed(old, bc.lo.0));
    assert(cand_below(old, cands, k0) && cand_diff(old, cands, k0) == bc.lo.0.diff as int);
    assert(cand_diff(old, cands, k0) >= tone_bb(old, tones, k0 / 8));
    assert(k0 / 8 == ti);
    assert(voice_class(bc.lo.0.voice) == spec_tone_note(tones[ti]));
}

/// The farthest-below tone is the nearest above, held by the closest
/// ascending slot at its above-distance.
#[verifier::rlimit(100)]
proof fn lemma_slot_max(old: ChordVoice, c: ChordName, ti: int)
    requires
        wf_note(voice_note(old)),
        11 <= voice_weight(old) <= 83,
        0 <= ti < 3,
        tone_bb(old, spec_spelling_of(c), ti) > tone_bb(old, spec_spelling_of(c), oth1(ti)),
        tone_bb(old, spec_spelling_of(c), ti) > tone_bb(old, spec_spelling_of(c), oth2(ti)),
    ensures
        ({
            let tones = spec_spelling_of(c);
            let bc = bc_fold(old, spec_candidates(tones));
            bc.hi.0.diff as int <= 12 - tone_bb(old, tones, ti) && bc.hi.0.diff < usize::MAX
                && voice_class(bc.hi.0.voice) == spec_tone_note(tones[ti])
        }),
{
    let tones = spec_spelling_of(c);
    let cands = spec_candidates(tones);
    let bc = bc_fold(old, cands);
    let ow = voice_weight(old);
    let bb = tone_bb(old, tones, ti);
    assert forall|k: int| 0 <= k < cands.len() implies wf_note(
        voice_note(#[trigger] cands[k]),
    ) by {
        lemma_cand_wf(tones, k);
    }
    assert forall|k1: int, k2: int| 0 <= k1 < k2 < cands.len() implies cands[k1] != cands[k2] by {
        lemma_candidates_distinct(tones, k1, k2);
    }
    lemma_bc_entries(old, cands);
    lemma_bc_entries_directed(old, cands);
    lemma_bc_closest_first(old, cands);
    lemma_class_reach(old, tones, 0);
    lemma_class_reach(old, tones, 1);
    lemma_class_reach(old, tones, 2);
    vstd::arithmetic::div_mod::lemma_mod_bound(ow - note_index(spec_tone_note(tones[ti])), 12);
    vstd::arithmetic::div_mod::lemma_mod_bound(
        ow - note_index(spec_tone_note(tones[oth1(ti)])),
        12,
    );
    vstd::arithmetic::div_mod::lemma_mod_bound(
        ow - note_index(spec_tone_note(tones[oth2(ti)])),
        12,
    );
    assert(bb >= 1);
    let ab = choose|k: int|
        0 <= k < 24 && k / 8 == ti && voice_weight(#[trigger] cand_at(tones, k)) == ow + (12 - bb);
    assert(cands[ab] == cand_at(tones, ab));
    lemma_cand_wf(tones, ab);
    assert(!cand_below(old, cands, ab) && cand_diff(old, cands, ab) == 12 - bb);
    assert(bc.hi.0.diff as int <= 12 - bb);
    assert(bc.hi.0.diff < usize::MAX);
    assert(entry_ok(old, cands, bc_choice(bc, 2)));
    let k0 = choose|k: int| 0 <= k < cands.len() && cands[k] == bc.hi.0.voice;
    lemma_cand_wf(tones, k0);
    assert(hi_entry_directed(old, bc.hi.0));
    assert(!cand_below(old, cands, k0) && cand_diff(old, cands, k0) == bc.hi.0.diff as int);
    assert(cand_diff(old, cands, k0) >= 12 - tone_bb(old, tones, k0 / 8));
    assert(k0 / 8 == ti);
    assert(voice_class(bc.hi.0.voice) == spec_tone_note(tones[ti]));
}

/// The middle tone is kept among the non-ascending slots at its
/// below-distance.
#[verifier::rlimit(100)]
proof fn lemma_slot_mid_lo(old: ChordVoice, c: ChordName, ti: int, tl: int)
    requires
        wf_note(voice_note(old)),
        11 <= voice_weight(old) <= 83,
        0 <= ti < 3,
        0 <= tl < 3,
        tl != ti,
        tone_bb(old, spec_spelling_of(c), tl) < tone_bb(old, spec_spelling_of(c), ti),
        forall|t: int|
            0 <= t < 3 && t != ti && t != tl ==> tone_bb(old, spec_spelling_of(c), ti)
                < #[trigger] tone_bb(old, spec_spelling_of(c), t),
    ensures
        ({
            let tones = spec_spelling_of(c);
            let bc = bc_fold(old, spec_candidates(tones));
            bc.lo.1.diff as int <= tone_bb(old, tones, ti) && bc.lo.1.diff < usize::MAX
                && voice_class(bc.lo.1.voice) == spec_tone_note(tones[ti])
        }),
{
    let tones = spec_spelling_of(c);
    let cands = spec_candidates(tones);
    let bc = bc_fold(old, cands);
    let ow = voice_weight(old);
    let bb = tone_bb(old, tones, ti);
    let lo_of = tone_bb(old, tones, tl);
    assert forall|k: int| 0 <= k < cands.len() implies wf_note(
        voice_note(#[trigger] cands[k]),
    ) by {
        lemma_cand_wf(tones, k);
    }
    assert forall|k1: int, k2: int| 0 <= k1 < k2 < cands.len() implies cands[k1] != cands[k2] by {
        lemma_candidates_distinct(tones, k1, k2);
    }
    lemma_bc_entries(old, cands);
    lemma_bc_entries_directed(old, cands);
    lemma_bc_closest_first(old, cands);
    lemma_bc_closest_second(old, cands);
    lemma_class_reach(old, tones, 0);
    lemma_class_reach(old, tones, 1);
    lemma_class_reach(old, tones, 2);
    vstd::arithmetic::div_mod::lemma_mod_bound(ow - note_index(spec_tone_note(tones[ti])), 12);
    vstd::arithmetic::div_mod::lemma_mod_bound(ow - note_index(spec_tone_note(tones[tl])), 12);
    // the middle tone's own below candidate
    let kb = choose|k: int|
        0 <= k < 24 && k / 8 == ti && voice_weight(#[trigger] cand_at(tones, k)) == ow - bb;
    assert(cands[kb] == cand_at(tones, kb));
    lemma_cand_wf(tones, kb);
    assert(cand_below(old, cands, kb) && cand_diff(old, cands, kb) == bb);
    // the nearest tone is held by lo.0
    lemma_slot_min(old, c, tl);
    assert(bc.lo.0.diff as int <= lo_of);
    assert(entry_ok(old, cands, bc_choice(bc, 0)));
    let k0 = choose|k: int| 0 <= k < cands.len() && cands[k] == bc.lo.0.voice;
    lemma_cand_wf(tones, k0);
    assert(lo_entry_directed(old, bc.lo.0));
    assert(cand_below(old, cands, k0) && cand_diff(old, cands, k0) == bc.lo.0.diff as int);
    assert(k0 / 8 == tl) by {
        assert(voice_class(cands[k0]) == spec_tone_note(tones[k0 / 8]));
        crate::chords::lemma_spelling_distinct(c);
    }
    // two below candidates bound the second non-ascending slot
    assert(kb != k0);
    if kb < k0 {
        assert(cand_diff(old, cands, kb) >= bc.lo.1.diff as int || cand_diff(old, cands, k0)
            >= bc.lo.1.diff as int);
    } else {
        assert(cand_diff(old, cands, k0) >= bc.lo.1.diff as int || cand_diff(old, cands, kb)
            >= bc.lo.1.diff as int);
    }
    assert(bc.lo.1.diff as int <= bb);
    assert(bc.lo.1.diff < usize::MAX);
    assert(entry_ok(old, cands, bc_choice(bc, 1)));
    let k1 = choose|k: int| 0 <= k < cands.len() && cands[k] == bc.lo.1.voice;
    lemma_cand_wf(tones, k1);
    assert(lo_entry_directed(old, bc.lo.1));
    assert(cand_below(old, cands, k1) && cand_diff(old, cands, k1) == bc.lo.1.diff as int);
    assert(cand_diff(old, cands, k1) >= tone_bb(old, tones, k1 / 8));
    // not the nearest tone twice over, not a farther tone: the middle one
    assert(k1 / 8 != tl) by {
        if k1 / 8 == tl && k1 / 8 == k0 / 8 {
            assert(bc.lo.0.voice != bc.lo.1.voice);
            lemma_same_tone_far(tones, k0, k1);
            assert(false);
        }
    }
    assert(k1 / 8 == ti);
    assert(voice_class(bc.lo.1.voice) == spec_tone_note(tones[ti]));
}

/// The middle tone is kept among the ascending slots at its
/// above-distance.
#[verifier::rlimit(100)]
proof fn lemma_slot_mid_hi(old: ChordVoice, c: ChordName, ti: int, th: int)
    requires
        wf_note(voice_note(old)),
        11 <= voice_weight(old) <= 83,
        0 <= ti < 3,
        0 <= th < 3,
        th != ti,
        tone_bb(old, spec_spelling_of(c), th) > tone_bb(old, spec_spelling_of(c), ti),
        forall|t: int|
            0 <= t < 3 && t != ti && t != th ==> tone_bb(old, spec_spelling_of(c), ti)
                > #[trigger] tone_bb(old, spec_spelling_of(c), t),
    ensures
        ({
            let tones = spec_spelling_of(c);
            let bc = bc_fold(old, spec_candidates(tones));
            bc.hi.1.diff as int <= 12 - tone_bb(old, tones, ti) && bc.hi.1.diff < usize::MAX
                && voice_class(bc.hi.1.voice) == spec_tone_note(tones[ti])
        }),
{
    let tones = spec_spelling_of(c);
    let cands = spec_candidates(tones);
    let bc = bc_fold(old, cands);
    let ow = voice_weight(old);
    let bb = tone_bb(old, tones, ti);
    let hi_of = tone_bb(old, tones, th);
    assert forall|k: int| 0 <= k < cands.len() implies wf_note(
        voice_note(#[trigger] cands[k]),
    ) by {
        lemma_cand_wf(tones, k);
    }
    assert forall|k1: int, k2: int| 0 <= k1 < k2 < cands.len() implies cands[k1] != cands[k2] by {
        lemma_candidates_distinct(tones, k1, k2);
    }
    lemma_bc_entries(old, cands);
    lemma_bc_entries_directed(old, cands);
    lemma_bc_closest_first(old, cands);
    lemma_bc_closest_second(old, cands);
    lemma_class_reach(old, tones, 0);
    lemma_class_reach(old, tones, 1);
    lemma_class_reach(old, tones, 2);
    vstd::arithmetic::div_mod::lemma_mod_bound(ow - note_index(spec_tone_note(tones[ti])), 12);
    vstd::arithmetic::div_mod::lemma_mod_bound(ow - note_index(spec_tone_note(tones[th])), 12);
    // the middle tone's own above candidate
    let ab = choose|k: int|
        0 <= k < 24 && k / 8 == ti && voice_weight(#[trigger] cand_at(tones, k)) == ow + (12 - bb);
    assert(cands[ab] == cand_at(tones, ab));
    lemma_cand_wf(tones, ab);
    assert(!cand_below(old, cands, ab) && cand_diff(old, cands, ab) == 12 - bb);
    // the farthest-below tone is held by hi.0
    lemma_slot_max(old, c, th);
    assert(bc.hi.0.diff as int <= 12 - hi_of);
    assert(entry_ok(old, cands, bc_choice(bc, 2)));
    let k0 = choose|k: int| 0 <= k < cands.len() && cands[k] == bc.hi.0.voice;
    lemma_cand_wf(tones, k0);
    assert(hi_entry_directed(old, bc.hi.0));
    assert(!cand_below(old, cands, k0) && cand_diff(old, cands, k0) == bc.hi.0.diff as int);
    assert(k0 / 8 == th) by {
        assert(voice_class(cands[k0]) == spec_tone_note(tones[k0 / 8]));
        crate::chords::lemma_spelling_distinct(c);
    }
    // two ascending candidates bound the second ascending slot
    assert(ab != k0);
    if ab < k0 {
        assert(cand_diff(old, cands, ab) >= bc.hi.1.diff as int || cand_diff(old, cands, k0)
            >= bc.hi.1.diff as int);
    } else {
        assert(cand_diff(old, cands, k0) >= bc.hi.1.diff as int || cand_diff(old, cands, ab)
            >= bc.hi.1.diff as int);
    }
    assert(bc.hi.1.diff as int <= 12 - bb);
    assert(bc.hi.1.diff < usize::MAX);
    assert(entry_ok(old, cands, bc_choice(bc, 3)));
    let k1 = choose|k: int| 0 <= k < cands.len() && cands[k] == bc.hi.1.voice;
    lemma_cand_wf(tones, k1);
    assert(hi_entry_directed(old, bc.hi.1));
    assert(!cand_below(old, cands, k1) && cand_diff(old, cands, k1) == bc.hi.1.diff as int);
    assert(cand_diff(old, cands, k1) >= 12 - tone_bb(old, tones, k1 / 8));
    assert(k1 / 8 != th) by {
        if k1 / 8 == th && k1 / 8 == k0 / 8 {
            assert(bc.hi.0.voice != bc.hi.1.voice);
            lemma_same_tone_far(tones, k0, k1);
            assert(false);
        }
    }
    assert(k1 / 8 == ti);
    assert(voice_class(bc.hi.1.voice) == spec_tone_note(tones[ti]));
}

/// In the register interior, each tone of the target is offered by some
/// retained choice at no more than `slot_bound`.
proof fn lemma_slot_costs(old: ChordVoice, c: ChordName, ti: int)
    requires
        wf_note(voice_note(old)),
        11 <= voice_weight(old) <= 83,
        0 <= ti < 3,
    ensures
        ({
            let tones = spec_spelling_of(c);
            let bc = bc_fold(old, spec_candidates(tones));
            exists|j: int|
                0 <= j < 4 && voice_class((#[trigger] bc_choice(bc, j)).voice) == spec_tone_note(
                    tones[ti],
                ) && bc_choice(bc, j).diff as int <= slot_bound(old, spec_spelling_of(c), ti)
        }),
{
    let tones = spec_spelling_of(c);
    let bc = bc_fold(old, spec_candidates(tones));
    let bb = tone_bb(old, tones, ti);
    let p = tone_bb(old, tones, oth1(ti));
    let q = tone_bb(old, tones, oth2(ti));
    lemma_bbs_distinct(old, c, ti, oth1(ti));
    lemma_bbs_distinct(old, c, ti, oth2(ti));
    lemma_bbs_distinct(old, c, oth1(ti), oth2(ti));
    if bb < p && bb < q {
        lemma_slot_min(old, c, ti);
        assert(bc_choice(bc, 0) == bc.lo.0);
    } else if bb > p && bb > q {
        lemma_slot_max(old, c, ti);
        assert(bc_choice(bc, 2) == bc.hi.0);
    } else {
        let tl = if p < bb {
            oth1(ti)
        } else {
            oth2(ti)
        };
        let th = if p > bb {
            oth1(ti)
        } else {
            oth2(ti)
        };
        if bb <= 12 - bb {
            lemma_slot_mid_lo(old, c, ti, tl);
            assert(bc_choice(bc, 1) == bc.lo.1);
        } else {
            lemma_slot_mid_hi(old, c, ti, th);
            assert(bc_choice(bc, 3) == bc.hi.1);
        }
    }
}

/// A voice sits at below-distance zero from a tone exactly when it sounds
/// that tone's pitch class.
proof fn lemma_bb_zero_class(old: ChordVoice, c: ChordName, t: int)
    requires
        wf_note(voice_note(old)),
        0 <= t < 3,
    ensures
        tone_bb(old, spec_spelling_of(c), t) == 0 <==> voice_class(old) == spec_tone_note(
            spec_spelling_of(c)[t],
        ),
{
    let tones = spec_spelling_of(c);
    let ow = voice_weight(old);
    let ic = note_index(voice_class(old));
    let it = note_index(spec_tone_note(tones[t]));
    assert(0 <= ic < 12 && 0 <= it < 12);
    let oct = crate::notes::spec_oct_of(voice_note(old));
    assert(ow == (oct - 1) * 12 + ic);
    vstd::arithmetic::div_mod::lemma_fundamental_div_mod(ow - it, 12);
    vstd::arithmetic::div_mod::lemma_mod_bound(ow - it, 12);
    if voice_class(old) == spec_tone_note(tones[t]) {
        vstd::arithmetic::div_mod::lemma_fundamental_div_mod_converse(ow - it, 12, oct - 1, 0);
    }
    if tone_bb(old, tones, t) == 0 {
        assert(ic - it == 12 * ((ow - it) / 12 - (oct - 1)));
        assert(ic == it);
        crate::notes::lemma_note_index_inverse(voice_class(old));
        crate::notes::lemma_note_index_inverse(spec_tone_note(tones[t]));
    }
}

/// A configuration assembled from one retained slot per voice, covering
/// three distinct tones, bounds the winning distance by the slots' costs.
proof fn lemma_config_from_slots(
    v: ChordVoicing,
    c: ChordName,
    s0: int,
    s1: int,
    s2: int,
    b0: int,
    b1: int,
    b2: int,
)
    requires
        v.wf(),
        0 <= s0 < 3,
        0 <= s1 < 3,
        0 <= s2 < 3,
        s0 != s1 && s0 != s2 && s1 != s2,
        0 <= b0 < 1000,
        0 <= b1 < 1000,
        0 <= b2 < 1000,
        exists|j: int|
            0 <= j < 4 && voice_class(
                (#[trigger] bc_choice(spec_bcs(v, c).0, j)).voice,
            ) == spec_tone_note(spec_spelling_of(c)[s0]) && bc_choice(spec_bcs(v, c).0, j).diff
                as int <= b0,
        exists|j: int|
            0 <= j < 4 && voice_class(
                (#[trigger] bc_choice(spec_bcs(v, c).1, j)).voice,
            ) == spec_tone_note(spec_spelling_of(c)[s1]) && bc_choice(spec_bcs(v, c).1, j).diff
                as int <= b1,
        exists|j: int|
            0 <= j < 4 && voice_class(
                (#[trigger] bc_choice(spec_bcs(v, c).2, j)).voice,
            ) == spec_tone_note(spec_spelling_of(c)[s2]) && bc_choice(spec_bcs(v, c).2, j).diff
                as int <= b2,
    ensures
        spec_leadable(v, c),
        spec_lead_diff(v, c) <= b0 + b1 + b2,
{
    let tones = spec_spelling_of(c);
    let t = spec_bcs(v, c);
    crate::chords::lemma_spelling_distinct(c);
    let j0 = choose|j: int|
        0 <= j < 4 && voice_class((#[trigger] bc_choice(t.0, j)).voice) == spec_tone_note(
            tones[s0],
        ) && bc_choice(t.0, j).diff as int <= b0;
    let j1 = choose|j: int|
        0 <= j < 4 && voice_class((#[trigger] bc_choice(t.1, j)).voice) == spec_tone_note(
            tones[s1],
        ) && bc_choice(t.1, j).diff as int <= b1;
    let j2 = choose|j: int|
        0 <= j < 4 && voice_class((#[trigger] bc_choice(t.2, j)).voice) == spec_tone_note(
            tones[s2],
        ) && bc_choice(t.2, j).diff as int <= b2;
    let k = 16 * j0 + 4 * j1 + j2;
    vstd::arithmetic::div_mod::lemma_fundamental_div_mod_converse(k, 16, j0, 4 * j1 + j2);
    vstd::arithmetic::div_mod::lemma_fundamental_div_mod_converse(4 * j1 + j2, 4, j1, j2);
    vstd::arithmetic::div_mod::lemma_fundamental_div_mod_converse(k, 4, 4 * j0 + j1, j2);
    let cfg = cfg_choices(t.0, t.1, t.2, k);
    assert(cfg == (bc_choice(t.0, j0), bc_choice(t.1, j1), bc_choice(t.2, j2)));
    assert(cfg_valid(cfg));
    assert(cfg_diff(cfg) <= b0 + b1 + b2);
    lemma_winner_upto_props(t.0, t.1, t.2, 64);
    assert(spec_winner(t.0, t.1, t.2) is Some);
}

/// Outside the one gapped cell, a tone is retained at its honest optimum:
/// the nearer of its two directions.
proof fn lemma_slot_le_opt(old: ChordVoice, c: ChordName, ti: int)
    requires
        wf_note(voice_note(old)),
        11 <= voice_weight(old) <= 83,
        0 <= ti < 3,
        !(tone_bb(old, spec_spelling_of(c), ti) > tone_bb(old, spec_spelling_of(c), oth1(ti))
            && tone_bb(old, spec_spelling_of(c), ti) > tone_bb(old, spec_spelling_of(c), oth2(ti))
            && tone_bb(old, spec_spelling_of(c), ti) <= 5),
    ensures
        ({
            let tones = spec_spelling_of(c);
            let bc = bc_fold(old, spec_candidates(tones));
            let bb = tone_bb(old, tones, ti);
            exists|j: int|
                0 <= j < 4 && voice_class((#[trigger] bc_choice(bc, j)).voice) == spec_tone_note(
                    tones[ti],
                ) && bc_choice(bc, j).diff as int <= (if bb <= 12 - bb {
                    bb
                } else {
                    12 - bb
                })
        }),
{
    let tones = spec_spelling_of(c);
    let bb = tone_bb(old, tones, ti);
    let p = tone_bb(old, tones, oth1(ti));
    let q = tone_bb(old, tones, oth2(ti));
    lemma_slot_costs(old, c, ti);
    lemma_no_far_cluster(old, c);
    lemma_bbs_distinct(old, c, ti, oth1(ti));
    lemma_bbs_distinct(old, c, ti, oth2(ti));
    vstd::arithmetic::div_mod::lemma_mod_bound(
        voice_weight(old) - note_index(spec_tone_note(tones[ti])),
        12,
    );
    if bb < p && bb < q {
        assert(bb <= 6);
        assert(slot_bound(old, tones, ti) == bb);
    } else if bb > p && bb > q {
        assert(bb >= 6);
        assert(slot_bound(old, tones, ti) == 12 - bb);
    }
}

/// The slot each voice uses after the swap that routes around the gapped
/// cell: a voice aimed at the seventh takes the third (which it doubles,
/// at no cost), a voice aimed at the third takes the seventh (within six),
/// and a voice aimed at the root keeps it at its honest optimum.
proof fn lemma_swapped_slot(old: ChordVoice, c: ChordName, t: int)
    requires
        wf_note(voice_note(old)),
        11 <= voice_weight(old) <= 83,
        0 <= t < 3,
        t == 2 ==> tone_bb(old, spec_spelling_of(c), 1) == 0,
        t == 1 ==> tone_bb(old, spec_spelling_of(c), 1) != 0,
    ensures
        ({
            let tones = spec_spelling_of(c);
            let bc = bc_fold(old, spec_candidates(tones));
            let s = if t == 2 {
                1
            } else if t == 1 {
                2
            } else {
                0
            };
            let bb0 = tone_bb(old, tones, 0);
            exists|j: int|
                0 <= j < 4 && voice_class((#[trigger] bc_choice(bc, j)).voice) == spec_tone_note(
                    tones[s],
                ) && bc_choice(bc, j).diff as int <= (if t == 2 {
                    0
                } else if t == 1 {
                    6
                } else if bb0 <= 12 - bb0 {
                    bb0
                } else {
                    12 - bb0
                })
        }),
{
    let tones = spec_spelling_of(c);
    lemma_bbs_distinct(old, c, 0, 1);
    lemma_bbs_distinct(old, c, 0, 2);
    lemma_bbs_distinct(old, c, 1, 2);
    vstd::arithmetic::div_mod::lemma_mod_bound(
        voice_weight(old) - note_index(spec_tone_note(tones[0])),
        12,
    );
    vstd::arithmetic::div_mod::lemma_mod_bound(
        voice_weight(old) - note_index(spec_tone_note(tones[1])),
        12,
    );
    vstd::arithmetic::div_mod::lemma_mod_bound(
        voice_weight(old) - note_index(spec_tone_note(tones[2])),
        12,
    );
    if t == 2 {
        // the third sits at distance zero: it is the strict nearest tone
        lemma_slot_min(old, c, 1);
        let bc = bc_fold(old, spec_candidates(tones));
        assert(bc_choice(bc, 0) == bc.lo.0);
    } else if t == 1 {
        // the seventh is within six: were it the far side of a five-wide
        // cluster, the voice would double the third, which it does not
        let bb2 = tone_bb(old, tones, 2);
        if tone_bb(old, tones, 2) > tone_bb(old, tones, 0) && tone_bb(old, tones, 2) > tone_bb(
            old,
            tones,
            1,
        ) && tone_bb(old, tones, 2) <= 5 {
            lemma_near_cluster_shape(old, c);
            assert(false);
        }
        lemma_slot_le_opt(old, c, 2);
        assert((if bb2 <= 12 - bb2 {
            bb2
        } else {
            12 - bb2
        }) <= 6);
    } else {
        // the root is never the gapped tone: in a five-wide cluster the
        // seventh, not the root, is the farthest below
        let bb0 = tone_bb(old, tones, 0);
        if tone_bb(old, tones, 0) > tone_bb(old, tones, 1) && tone_bb(old, tones, 0) > tone_bb(
            old,
            tones,
            2,
        ) && tone_bb(old, tones, 0) <= 5 {
            lemma_near_cluster_shape(old, c);
            assert(false);
        }
        lemma_slot_le_opt(old, c, 0);
    }
}

/// A realization's per-voice movement is at least the nearer of the
/// assigned tone's two directions.
proof fn lemma_realization_ge_opt(old: ChordVoice, c: ChordName, x: ChordVoice, k: int)
    requires
        wf_note(voice_note(old)),
        11 <= voice_weight(old) <= 83,
        0 <= k < 24,
        cand_at(spec_spelling_of(c), k) == x,
    ensures
        ({
            let tones = spec_spelling_of(c);
            let bb = tone_bb(old, tones, k / 8);
            spec_abs_diff(voice_weight(x), voice_weight(old)) >= (if bb <= 12 - bb {
                bb
            } else {
                12 - bb
            })
        }),
{
    let tones = spec_spelling_of(c);
    lemma_cand_wf(tones, k);
    lemma_class_reach(old, tones, k / 8);
    vstd::arithmetic::div_mod::lemma_mod_bound(
        voice_weight(old) - note_index(spec_tone_note(tones[k / 8])),
        12,
    );
}

/// A gapped voice's assigned tone is the seventh, at distance five, and
/// the voice doubles the target's third.
proof fn lemma_gapped_voice_shape(old: ChordVoice, c: ChordName, t: int, gap: bool)
    requires
        wf_note(voice_note(old)),
        11 <= voice_weight(old) <= 83,
        0 <= t < 3,
        gap ==> tone_bb(old, spec_spelling_of(c), t) > tone_bb(
            old,
            spec_spelling_of(c),
            oth1(t),
        ) && tone_bb(old, spec_spelling_of(c), t) > tone_bb(old, spec_spelling_of(c), oth2(t))
            && tone_bb(old, spec_spelling_of(c), t) <= 5,
    ensures
        gap ==> t == 2 && tone_bb(old, spec_spelling_of(c), 1) == 0 && tone_bb(
            old,
            spec_spelling_of(c),
            2,
        ) == 5,
{
    if gap {
        lemma_near_cluster_shape(old, c);
        lemma_bbs_distinct(old, c, 0, 1);
        lemma_bbs_distinct(old, c, 0, 2);
        lemma_bbs_distinct(old, c, 1, 2);
    }
}

/// Optimality in the register interior: when every current voice's weight
/// lies in `[11, 83]`, no valid realization of the target chord — any
/// three candidate voices with pairwise distinct pitch classes, drawn from
/// any octaves — moves less in total than the voicing `voice_lead`
/// returns.
pub proof fn lemma_voice_lead_optimal_in_interior(
    v: ChordVoicing,
    c: ChordName,
    x0: ChordVoice,
    x1: ChordVoice,
    x2: ChordVoice,
)
    requires
        v.wf(),
        11 <= voice_weight(v.voices.0) <= 83,
        11 <= voice_weight(v.voices.1) <= 83,
        11 <= voice_weight(v.voices.2) <= 83,
        exists|k: int| 0 <= k < 24 && #[trigger] cand_at(spec_spelling_of(c), k) == x0,
        exists|k: int| 0 <= k < 24 && #[trigger] cand_at(spec_spelling_of(c), k) == x1,
        exists|k: int| 0 <= k < 24 && #[trigger] cand_at(spec_spelling_of(c), k) == x2,
        distinct_classes(x0, x1, x2),
    ensures
        spec_leadable(v, c),
        spec_lead_diff(v, c) <= spec_abs_diff(voice_weight(x0), voice_weight(v.voices.0))
            + spec_abs_diff(voice_weight(x1), voice_weight(v.voices.1)) + spec_abs_diff(
            voice_weight(x2),
            voice_weight(v.voices.2),
        ),
{
    let tones = spec_spelling_of(c);
    crate::chords::lemma_spelling_distinct(c);
    let k0 = choose|k: int| 0 <= k < 24 && #[trigger] cand_at(tones, k) == x0;
    let k1 = choose|k: int| 0 <= k < 24 && #[trigger] cand_at(tones, k) == x1;
    let k2 = choose|k: int| 0 <= k < 24 && #[trigger] cand_at(tones, k) == x2;
    lemma_cand_wf(tones, k0);
    lemma_cand_wf(tones, k1);
    lemma_cand_wf(tones, k2);
    let t0 = k0 / 8;
    let t1 = k1 / 8;
    let t2 = k2 / 8;
    assert(t0 != t1 && t0 != t2 && t1 != t2);
    let d0 = spec_abs_diff(voice_weight(x0), voice_weight(v.voices.0));
    let d1 = spec_abs_diff(voice_weight(x1), voice_weight(v.voices.1));
    let d2 = spec_abs_diff(voice_weight(x2), voice_weight(v.voices.2));
    lemma_realization_ge_opt(v.voices.0, c, x0, k0);
    lemma_realization_ge_opt(v.voices.1, c, x1, k1);
    lemma_realization_ge_opt(v.voices.2, c, x2, k2);
    let gap0 = tone_bb(v.voices.0, tones, t0) > tone_bb(v.voices.0, tones, oth1(t0)) && tone_bb(
        v.voices.0,
        tones,
        t0,
    ) > tone_bb(v.voices.0, tones, oth2(t0)) && tone_bb(v.voices.0, tones, t0) <= 5;
    let gap1 = tone_bb(v.voices.1, tones, t1) > tone_bb(v.voices.1, tones, oth1(t1)) && tone_bb(
        v.voices.1,
        tones,
        t1,
    ) > tone_bb(v.voices.1, tones, oth2(t1)) && tone_bb(v.voices.1, tones, t1) <= 5;
    let gap2 = tone_bb(v.voices.2, tones, t2) > tone_bb(v.voices.2, tones, oth1(t2)) && tone_bb(
        v.voices.2,
        tones,
        t2,
    ) > tone_bb(v.voices.2, tones, oth2(t2)) && tone_bb(v.voices.2, tones, t2) <= 5;
    if gap0 || gap1 || gap2 {
        // the gapped voice doubles the target's third, which pins its
        // assigned tone to the seventh and its distance to five
        lemma_gapped_voice_shape(v.voices.0, c, t0, gap0);
        lemma_gapped_voice_shape(v.voices.1, c, t1, gap1);
        lemma_gapped_voice_shape(v.voices.2, c, t2, gap2);
        // no two voices double the third at once
        lemma_bb_zero_class(v.voices.0, c, 1);
        lemma_bb_zero_class(v.voices.1, c, 1);
        lemma_bb_zero_class(v.voices.2, c, 1);
        assert(voice_class(v.voices.0) != voice_class(v.voices.1) && voice_class(v.voices.0)
            != voice_class(v.voices.2) && voice_class(v.voices.1) != voice_class(v.voices.2));
        // the gapped voice is the one assigned the seventh; the voice
        // assigned the third does not double it
        if t0 == 1 {
            assert(tone_bb(v.voices.0, tones, 1) != 0);
        }
        if t1 == 1 {
            assert(tone_bb(v.voices.1, tones, 1) != 0);
        }
        if t2 == 1 {
            assert(tone_bb(v.voices.2, tones, 1) != 0);
        }
        lemma_swapped_slot(v.voices.0, c, t0);
        lemma_swapped_slot(v.voices.1, c, t1);
        lemma_swapped_slot(v.voices.2, c, t2);
        let s0 = if t0 == 2 {
            1
        } else if t0 == 1 {
            2
        } else {
            0
        };
        let s1 = if t1 == 2 {
            1
        } else if t1 == 1 {
            2
        } else {
            0
        };
        let s2 = if t2 == 2 {
            1
        } else if t2 == 1 {
            2
        } else {
            0
        };
        let bb00 = tone_bb(v.voices.0, tones, 0);
        let bb10 = tone_bb(v.voices.1, tones, 0);
        let bb20 = tone_bb(v.voices.2, tones, 0);
        let b0 = if t0 == 2 {
            0
        } else if t0 == 1 {
            6
        } else if bb00 <= 12 - bb00 {
            bb00
        } else {
            12 - bb00
        };
        let b1 = if t1 == 2 {
            0
        } else if t1 == 1 {
            6
        } else if bb10 <= 12 - bb10 {
            bb10
        } else {
            12 - bb10
        };
        let b2 = if t2 == 2 {
            0
        } else if t2 == 1 {
            6
        } else if bb20 <= 12 - bb20 {
            bb20
        } else {
            12 - bb20
        };
        vstd::arithmetic::div_mod::lemma_mod_bound(
            voice_weight(v.voices.0) - note_index(spec_tone_note(tones[0])),
            12,
        );
        vstd::arithmetic::div_mod::lemma_mod_bound(
            voice_weight(v.voices.1) - note_index(spec_tone_note(tones[0])),
            12,
        );
        vstd::arithmetic::div_mod::lemma_mod_bound(
            voice_weight(v.voices.2) - note_index(spec_tone_note(tones[0])),
            12,
        );
        lemma_config_from_slots(v, c, s0, s1, s2, b0, b1, b2);
        // per voice: the gapped voice saves at least five, the third-voice
        // spends at most six but had at least one, the root voice breaks
        // even
        assert(b0 + b1 + b2 <= d0 + d1 + d2);
    } else {
        lemma_slot_le_opt(v.voices.0, c, t0);
        lemma_slot_le_opt(v.voices.1, c, t1);
        lemma_slot_le_opt(v.voices.2, c, t2);
        let bb0 = tone_bb(v.voices.0, tones, t0);
        let bb1 = tone_bb(v.voices.1, tones, t1);
        let bb2 = tone_bb(v.voices.2, tones, t2);
        vstd::arithmetic::div_mod::lemma_mod_bound(
            voice_weight(v.voices.0) - note_index(spec_tone_note(tones[t0])),
            12,
        );
        vstd::arithmetic::div_mod::lemma_mod_bound(
            voice_weight(v.voices.1) - note_index(spec_tone_note(tones[t1])),
            12,
        );
        vstd::arithmetic::div_mod::lemma_mod_bound(
            voice_weight(v.voices.2) - note_index(spec_tone_note(tones[t2])),
            12,
        );
        lemma_config_from_slots(
            v,
            c,
            t0,
            t1,
            t2,
            if bb0 <= 12 - bb0 {
                bb0
            } else {
                12 - bb0
            },
            if bb1 <= 12 - bb1 {
                bb1
            } else {
                12 - bb1
            },
            if bb2 <= 12 - bb2 {
                bb2
            } else {
                12 - bb2
            },
        );
    }
}

/// In the register interior, every tone class of the target is represented
/// among a voice's four retained choices at a usable distance.
proof fn lemma_voice_covers_class(old: ChordVoice, c: ChordName, ti: int)
    requires
        wf_note(voice_note(old)),
        11 <= voice_weight(old) <= 83,
        0 <= ti < 3,
    ensures
        ({
            let tones = spec_spelling_of(c);
            let bc = bc_fold(old, spec_candidates(tones));
            exists|j: int|
                0 <= j < 4 && (#[trigger] bc_choice(bc, j)).diff < usize::MAX && voice_class(
                    bc_choice(bc, j).voice,
                ) == spec_tone_note(tones[ti])
        }),
{
    let tones = spec_spelling_of(c);
    lemma_slot_costs(old, c, ti);
    vstd::arithmetic::div_mod::lemma_mod_bound(
        voice_weight(old) - note_index(spec_tone_note(tones[ti])),
        12,
    );
    let bc = bc_fold(old, spec_candidates(tones));
    let j = choose|j: int|
        0 <= j < 4 && voice_class((#[trigger] bc_choice(bc, j)).voice) == spec_tone_note(
            tones[ti],
        ) && bc_choice(bc, j).diff as int <= slot_bound(old, tones, ti);
    assert(slot_bound(old, tones, ti) <= 12);
    assert(bc_choice(bc, j).diff < usize::MAX && voice_class(bc_choice(bc, j).voice)
        == spec_tone_note(tones[ti]));
}

/// Away from the register edges, re-voicing always succeeds: when every
/// current voice's weight lies in `[11, 83]`, every target tone has
/// candidates on both sides of every voice, and a configuration of real
/// candidates with three distinct pitch classes survives pruning.
pub proof fn lemma_leadable_in_interior(v: ChordVoicing, c: ChordName)
    requires
        v.wf(),
        11 <= voice_weight(v.voices.0) <= 83,
        11 <= voice_weight(v.voices.1) <= 83,
        11 <= voice_weight(v.voices.2) <= 83,
    ensures
        spec_leadable(v, c),
{
    let tones = spec_spelling_of(c);
    let cands = spec_candidates(tones);
    let t = spec_bcs(v, c);
    crate::chords::lemma_spelling_distinct(c);
    lemma_voice_covers_class(v.voices.0, c, 0);
    lemma_voice_covers_class(v.voices.1, c, 1);
    lemma_voice_covers_class(v.voices.2, c, 2);
    assert(t.0 == bc_fold(v.voices.0, cands));
    assert(t.1 == bc_fold(v.voices.1, cands));
    assert(t.2 == bc_fold(v.voices.2, cands));
    let j0 = choose|j: int|
        0 <= j < 4 && (#[trigger] bc_choice(t.0, j)).diff < usize::MAX && voice_class(
            bc_choice(t.0, j).voice,
        ) == spec_tone_note(tones[0]);
    let j1 = choose|j: int|
        0 <= j < 4 && (#[trigger] bc_choice(t.1, j)).diff < usize::MAX && voice_class(
            bc_choice(t.1, j).voice,
        ) == spec_tone_note(tones[1]);
    let j2 = choose|j: int|
        0 <= j < 4 && (#[trigger] bc_choice(t.2, j)).diff < usize::MAX && voice_class(
            bc_choice(t.2, j).voice,
        ) == spec_tone_note(tones[2]);
    assert forall|k: int| 0 <= k < cands.len() implies wf_note(
        voice_note(#[trigger] cands[k]),
    ) by {
        lemma_cand_wf(tones, k);
    }
    lemma_bc_entries(v.voices.0, cands);
    lemma_bc_entries(v.voices.1, cands);
    lemma_bc_entries(v.voices.2, cands);
    crate::notes::lemma_weight_bounds(voice_note(v.voices.0));
    crate::notes::lemma_weight_bounds(voice_note(v.voices.1));
    crate::notes::lemma_weight_bounds(voice_note(v.voices.2));
    assert forall|x: ChordVoice|
        (exists|k: int| 0 <= k < cands.len() && cands[k] == x) implies wf_note(
        voice_note(x),
    ) by {
        let k = choose|k: int| 0 <= k < cands.len() && cands[k] == x;
        lemma_cand_wf(tones, k);
    }
    assert(entry_ok(v.voices.0, cands, bc_choice(t.0, j0)));
    assert(entry_ok(v.voices.1, cands, bc_choice(t.1, j1)));
    assert(entry_ok(v.voices.2, cands, bc_choice(t.2, j2)));
    crate::notes::lemma_weight_bounds(voice_note(bc_choice(t.0, j0).voice));
    crate::notes::lemma_weight_bounds(voice_note(bc_choice(t.1, j1).voice));
    crate::notes::lemma_weight_bounds(voice_note(bc_choice(t.2, j2).voice));
    assert(bc_choice(t.0, j0).diff <= 190 && bc_choice(t.1, j1).diff <= 190 && bc_choice(
        t.2,
        j2,
    ).diff <= 190);
    let k = 16 * j0 + 4 * j1 + j2;
    vstd::arithmetic::div_mod::lemma_fundamental_div_mod_converse(k, 16, j0, 4 * j1 + j2);
    vstd::arithmetic::div_mod::lemma_fundamental_div_mod_converse(4 * j1 + j2, 4, j1, j2);
    vstd::arithmetic::div_mod::lemma_fundamental_div_mod_converse(k, 4, 4 * j0 + j1, j2);
    let cfg = cfg_choices(t.0, t.1, t.2, k);
    assert(cfg == (bc_choice(t.0, j0), bc_choice(t.1, j1), bc_choice(t.2, j2)));
    assert(cfg_valid(cfg));
    assert(cfg_diff(cfg) < usize::MAX as int);
    lemma_winner_upto_props(t.0, t.1, t.2, 64);
    assert(spec_winner(t.0, t.1, t.2) is Some);
}

} // verus!
