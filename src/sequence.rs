//! Note choice: consonance, positional attention, scoring and sampling.
use vstd::prelude::*;

verus! {

/// Number of playable notes in the scale.
pub const NUM_NOTES: usize = 8;

/// Sentinel standing for a rest (silence) in a sequence.
pub const REST_NOTE: usize = 999;

/// A random draw `d` stands for the fraction `d / DRAW_SCALE` of [0, 1).
pub const DRAW_SCALE: u64 = 9007199254740992;

/// Fixed-point unit of attention weights: the weight 1 is `WEIGHT_ONE`.
pub const WEIGHT_ONE: u64 = 4294967296;

/// Consonance values are counted in twentieths: 20 stands for 1.0.
pub const CONSONANCE_ONE: u64 = 20;

/// Longest sequence length that a configuration can ask for.
pub const MAX_SEQUENCE_LENGTH: usize = 240;

/// A note index of the scale, or a rest.
pub open spec fn valid_entry(v: usize) -> bool {
    v < NUM_NOTES || v == REST_NOTE
}

pub open spec fn abs_diff(a: int, b: int) -> nat {
    if a >= b {
        (a - b) as nat
    } else {
        (b - a) as nat
    }
}

/// Preference for an interval (absolute distance of note indices), in
/// twentieths. Melodic mode favours steps; the other mode favours unisons,
/// fourths and octaves.
pub open spec fn consonance_spec(melodic: bool, interval: nat) -> nat {
    if melodic {
        if interval == 0 {
            16
        } else if interval == 1 || interval == 2 {
            20
        } else if interval == 3 {
            17
        } else if interval == 4 {
            14
        } else if interval == 5 {
            12
        } else if interval == 7 {
            10
        } else {
            6
        }
    } else {
        if interval == 0 {
            20
        } else if interval == 2 || interval == 3 {
            18
        } else if interval == 4 {
            19
        } else if interval == 5 {
            16
        } else if interval == 7 {
            19
        } else {
            10
        }
    }
}

/// Attention of position `i` on position `j`: 1 / (|i - j| + 1), in units of
/// `WEIGHT_ONE`, rounded down.
pub open spec fn attention_spec(i: int, j: int) -> nat {
    WEIGHT_ONE as nat / (abs_diff(i, j) + 1)
}

/// What the note at sequence index `prev` adds to the score of `note` when
/// position `pos` is chosen. Rests add nothing.
pub open spec fn contribution(melodic: bool, seq: Seq<usize>, pos: int, prev: int, note: int) -> nat {
    if seq[prev] == REST_NOTE {
        0
    } else {
        attention_spec(pos, prev) * consonance_spec(melodic, abs_diff(note, seq[prev] as int))
    }
}

/// Sum of the contributions of the first `k` entries of `seq`.
pub open spec fn score_upto(melodic: bool, seq: Seq<usize>, pos: int, note: int, k: nat) -> nat
    decreases k,
{
    if k == 0 {
        0
    } else {
        score_upto(melodic, seq, pos, note, (k - 1) as nat) + contribution(
            melodic,
            seq,
            pos,
            k - 1,
            note,
        )
    }
}

/// Unnormalised preference for `note` at position `pos`, given the sequence so far.
pub open spec fn note_score_spec(melodic: bool, seq: Seq<usize>, pos: int, note: int) -> nat {
    score_upto(melodic, seq, pos, note, seq.len())
}

/// Upper bound of a single contribution.
pub open spec fn max_contribution() -> nat {
    WEIGHT_ONE as nat * CONSONANCE_ONE as nat
}

pub fn consonance(melodic: bool, interval: usize) -> (r: u64)
    ensures
        r == consonance_spec(melodic, interval as nat),
        r <= CONSONANCE_ONE,
{
    if melodic {
        match interval {
            0 => 16,
            1 | 2 => 20,
            3 => 17,
            4 => 14,
            5 => 12,
            7 => 10,
            _ => 6,
        }
    } else {
        match interval {
            0 => 20,
            2 | 3 => 18,
            4 => 19,
            5 => 16,
            7 => 19,
            _ => 10,
        }
    }
}

pub fn attention_weight(i: usize, j: usize) -> (r: u64)
    ensures
        r == attention_spec(i as int, j as int),
        r <= WEIGHT_ONE,
{
    let distance: usize = if i >= j {
        i - j
    } else {
        j - i
    };
    if distance as u64 >= WEIGHT_ONE {
        proof {
            let d = distance as int;
            assert(WEIGHT_ONE as int / (d + 1) == 0) by (nonlinear_arith)
                requires
                    d >= WEIGHT_ONE as int,
            ;
        }
        0
    } else {
        let r = WEIGHT_ONE / (distance as u64 + 1);
        proof {
            let d = distance as int;
            assert(WEIGHT_ONE as int / (d + 1) <= WEIGHT_ONE as int) by (nonlinear_arith)
                requires
                    d >= 0,
            ;
        }
        r
    }
}

/// Sum of the first `k` scores.
pub open spec fn prefix_total(scores: Seq<u64>, k: nat) -> nat
    decreases k,
{
    if k == 0 {
        0
    } else {
        prefix_total(scores, (k - 1) as nat) + scores[k - 1] as nat
    }
}

/// The draw falls within the cumulative share of notes `0..=k`:
/// `draw / DRAW_SCALE <= (scores[0] + .. + scores[k]) / total`.
pub open spec fn covers(scores: Seq<u64>, draw: nat, k: nat) -> bool {
    draw * prefix_total(scores, NUM_NOTES as nat) <= DRAW_SCALE as nat * prefix_total(
        scores,
        k + 1,
    )
}

/// The first note from `k` on whose cumulative share covers the draw, or 0.
pub open spec fn first_cover(scores: Seq<u64>, draw: nat, k: nat) -> nat
    decreases NUM_NOTES - k,
{
    if k >= NUM_NOTES {
        0
    } else if covers(scores, draw, k) {
        k
    } else {
        first_cover(scores, draw, k + 1)
    }
}

/// Inverse-CDF sampling: the first note whose cumulative share reaches the
/// draw. With all scores zero this is note 0.
pub open spec fn pick_spec(scores: Seq<u64>, draw: nat) -> nat {
    first_cover(scores, draw, 0)
}

/// A sum of `k` scores fits in `k` times the largest score.
pub proof fn lemma_prefix_total_bound(scores: Seq<u64>, k: nat)
    requires
        k <= scores.len(),
    ensures
        prefix_total(scores, k) <= k * (u64::MAX as nat),
    decreases k,
{
    if k > 0 {
        lemma_prefix_total_bound(scores, (k - 1) as nat);
    }
}

proof fn lemma_first_cover_stays(scores: Seq<u64>, draw: nat, k: nat)
    requires
        k <= NUM_NOTES,
        forall|j: nat| j < k ==> !covers(scores, draw, j),
    ensures
        first_cover(scores, draw, 0) == first_cover(scores, draw, k),
    decreases k,
{
    if k > 0 {
        lemma_first_cover_stays(scores, draw, (k - 1) as nat);
        assert(!covers(scores, draw, (k - 1) as nat));
    }
}

/// Score of one candidate note at position `pos`, from every non-rest entry
/// of the sequence so far.
pub fn note_score(melodic: bool, seq: &Vec<usize>, pos: usize, note: usize) -> (r: u64)
    requires
        note < NUM_NOTES,
        seq@.len() <= 2 * MAX_SEQUENCE_LENGTH,
        forall|i: int| 0 <= i < seq@.len() ==> valid_entry(#[trigger] seq@[i]),
    ensures
        r == note_score_spec(melodic, seq@, pos as int, note as int),
        r <= seq@.len() * max_contribution(),
{
    let mut acc: u64 = 0;
    let mut i: usize = 0;
    while i < seq.len()
        invariant
            i <= seq@.len(),
            note < NUM_NOTES,
            seq@.len() <= 2 * MAX_SEQUENCE_LENGTH,
            forall|k: int| 0 <= k < seq@.len() ==> valid_entry(#[trigger] seq@[k]),
            acc == score_upto(melodic, seq@, pos as int, note as int, i as nat),
            acc <= i * max_contribution(),
        decreases seq@.len() - i,
    {
        let prev = seq[i];
        if prev != REST_NOTE {
            let w = attention_weight(pos, i);
            let interval: usize = if note >= prev {
                note - prev
            } else {
                prev - note
            };
            let c = consonance(melodic, interval);
            proof {
                assert(w * c <= max_contribution()) by (nonlinear_arith)
                    requires
                        w <= WEIGHT_ONE,
                        c <= CONSONANCE_ONE,
                ;
                assert(i * max_contribution() + max_contribution() == (i + 1) * max_contribution())
                    by (nonlinear_arith);
                assert((i + 1) * max_contribution() <= 2 * MAX_SEQUENCE_LENGTH * max_contribution())
                    by (nonlinear_arith)
                    requires
                        i + 1 <= 2 * MAX_SEQUENCE_LENGTH,
                ;
            }
            acc = acc + w * c;
        } else {
            proof {
                assert(i * max_contribution() <= (i + 1) * max_contribution()) by (nonlinear_arith);
            }
        }
        i = i + 1;
    }
    acc
}

/// Scores of all notes at position `pos`.
pub fn note_scores(melodic: bool, seq: &Vec<usize>, pos: usize) -> (r: Vec<u64>)
    requires
        seq@.len() <= 2 * MAX_SEQUENCE_LENGTH,
        forall|i: int| 0 <= i < seq@.len() ==> valid_entry(#[trigger] seq@[i]),
    ensures
        r@.len() == NUM_NOTES,
        forall|k: int|
            0 <= k < NUM_NOTES ==> #[trigger] r@[k] == note_score_spec(melodic, seq@, pos as int, k),
{
    let mut r: Vec<u64> = Vec::new();
    let mut k: usize = 0;
    while k < NUM_NOTES
        invariant
            k <= NUM_NOTES,
            r@.len() == k,
            seq@.len() <= 2 * MAX_SEQUENCE_LENGTH,
            forall|i: int| 0 <= i < seq@.len() ==> valid_entry(#[trigger] seq@[i]),
            forall|j: int|
                0 <= j < k ==> #[trigger] r@[j] == note_score_spec(melodic, seq@, pos as int, j),
        decreases NUM_NOTES - k,
    {
        let s = note_score(melodic, seq, pos, k);
        r.push(s);
        k = k + 1;
    }
    r
}

/// Picks a note from `scores` by inverse-CDF sampling with `draw`.
pub fn pick_note(scores: &Vec<u64>, draw: u64) -> (r: usize)
    requires
        scores@.len() == NUM_NOTES,
        draw < DRAW_SCALE,
    ensures
        r == pick_spec(scores@, draw as nat),
        r < NUM_NOTES,
{
    let mut total: u128 = 0;
    let mut k: usize = 0;
    while k < NUM_NOTES
        invariant
            k <= NUM_NOTES,
            scores@.len() == NUM_NOTES,
            total == prefix_total(scores@, k as nat),
        decreases NUM_NOTES - k,
    {
        proof {
            lemma_prefix_total_bound(scores@, k as nat);
        }
        total = total + scores[k] as u128;
        k = k + 1;
    }
    proof {
        lemma_prefix_total_bound(scores@, NUM_NOTES as nat);
    }
    proof {
        assert(draw * total <= DRAW_SCALE * (NUM_NOTES * (u64::MAX as nat))) by (nonlinear_arith)
            requires
                draw < DRAW_SCALE,
                total <= NUM_NOTES * (u64::MAX as nat),
        ;
    }
    let scaled_draw: u128 = draw as u128 * total;
    let mut cumulative: u128 = 0;
    let mut k: usize = 0;
    while k < NUM_NOTES
        invariant
            k <= NUM_NOTES,
            scores@.len() == NUM_NOTES,
            draw < DRAW_SCALE,
            total == prefix_total(scores@, NUM_NOTES as nat),
            total <= NUM_NOTES * (u64::MAX as nat),
            scaled_draw == draw * total,
            cumulative == prefix_total(scores@, k as nat),
            forall|j: nat| j < k ==> !covers(scores@, draw as nat, j),
        decreases NUM_NOTES - k,
    {
        proof {
            lemma_prefix_total_bound(scores@, (k + 1) as nat);
        }
        cumulative = cumulative + scores[k] as u128;
        proof {
            assert(DRAW_SCALE * cumulative <= DRAW_SCALE * (NUM_NOTES * (u64::MAX as nat)))
                by (nonlinear_arith)
                requires
                    cumulative <= (k + 1) * (u64::MAX as nat),
                    k + 1 <= NUM_NOTES,
            ;
        }
        if scaled_draw <= DRAW_SCALE as u128 * cumulative {
            proof {
                lemma_first_cover_stays(scores@, draw as nat, k as nat);
            }
            return k;
        }
        k = k + 1;
    }
    proof {
        lemma_first_cover_stays(scores@, draw as nat, NUM_NOTES as nat);
    }
    0
}

} // verus!
