//! The sequence generator as a state machine that consumes one random draw
//! per step, so that the host can supply randomness as it likes.
use vstd::prelude::*;
use crate::sequence::{
    DRAW_SCALE, MAX_SEQUENCE_LENGTH, NUM_NOTES, REST_NOTE, note_score_spec, note_scores,
    pick_note, pick_spec, valid_entry,
};

verus! {

/// What the generator does with the next draw.
#[derive(Clone, Copy, Debug, PartialEq, Eq, Structural)]
pub enum Stage {
    /// Choose the first note.
    StartNote,
    /// Choose the phrase length, 4 to 7 notes.
    PhraseLength,
    /// Decide whether a phrase ends here with a rest (probability 0.6).
    RestCheck,
    /// Decide between one rest (probability 0.7) and two.
    RestCount,
    /// Sample a note from the attention-weighted distribution.
    Sample,
    /// Decide whether to replace the sampled note (probability 0.15).
    Perturb,
    /// Choose the replacing note uniformly.
    PerturbNote,
    /// The sequence is complete.
    Done,
}

/// Mathematical state of a [`SequenceGenerator`].
pub struct GeneratorModel {
    pub seq: Seq<usize>,
    /// Position being generated; the sequence index of the first note is 0.
    pub pos: nat,
    /// Number of positions to generate.
    pub length: nat,
    pub notes_since_rest: nat,
    pub phrase_length: nat,
    /// Note chosen by the last `Sample` step.
    pub selected: nat,
    pub stage: Stage,
    pub melodic: bool,
    pub spacing: bool,
}

/// `floor(r * 8) mod 8` for the fraction `r` that the draw stands for.
pub open spec fn note_of_draw(d: nat) -> nat {
    (d * NUM_NOTES as nat / DRAW_SCALE as nat) % NUM_NOTES as nat
}

/// `4 + floor(r * 4)`.
pub open spec fn phrase_of_draw(d: nat) -> nat {
    4 + d * 4 / DRAW_SCALE as nat
}

/// The fraction that the draw stands for is below `num / den`.
pub open spec fn below(d: nat, num: nat, den: nat) -> bool {
    d * den < num * DRAW_SCALE as nat
}

pub open spec fn scores_seq(melodic: bool, seq: Seq<usize>, pos: nat) -> Seq<u64> {
    Seq::new(NUM_NOTES as nat, |k: int| note_score_spec(melodic, seq, pos as int, k) as u64)
}

impl GeneratorModel {
    pub open spec fn start(length: nat, melodic: bool, spacing: bool) -> GeneratorModel {
        GeneratorModel {
            seq: Seq::empty(),
            pos: 0,
            length,
            notes_since_rest: 0,
            phrase_length: 0,
            selected: 0,
            stage: Stage::StartNote,
            melodic,
            spacing,
        }
    }

    /// The stage at the start of position `pos`.
    pub open spec fn enter(self) -> GeneratorModel {
        GeneratorModel {
            stage: if self.pos >= self.length {
                Stage::Done
            } else if self.spacing && self.notes_since_rest >= self.phrase_length {
                Stage::RestCheck
            } else {
                Stage::Sample
            },
            ..self
        }
    }

    /// Appends a note and moves to the next position.
    pub open spec fn emit(self, note: usize) -> GeneratorModel {
        (GeneratorModel {
            seq: self.seq.push(note),
            notes_since_rest: self.notes_since_rest + 1,
            pos: self.pos + 1,
            ..self
        }).enter()
    }

    pub open spec fn next(self, d: nat) -> GeneratorModel {
        match self.stage {
            Stage::StartNote => GeneratorModel {
                seq: seq![note_of_draw(d) as usize],
                pos: 1,
                notes_since_rest: 1,
                stage: Stage::PhraseLength,
                ..self
            },
            Stage::PhraseLength => (GeneratorModel { phrase_length: phrase_of_draw(d), ..self }).enter(),
            Stage::RestCheck => if below(d, 3, 5) {
                GeneratorModel { stage: Stage::RestCount, ..self }
            } else {
                GeneratorModel { stage: Stage::Sample, ..self }
            },
            Stage::RestCount => (GeneratorModel {
                seq: if below(d, 7, 10) {
                    self.seq.push(REST_NOTE)
                } else {
                    self.seq.push(REST_NOTE).push(REST_NOTE)
                },
                notes_since_rest: 0,
                pos: self.pos + 1,
                ..self
            }).enter(),
            Stage::Sample => GeneratorModel {
                selected: pick_spec(scores_seq(self.melodic, self.seq, self.pos), d),
                stage: Stage::Perturb,
                ..self
            },
            Stage::Perturb => if below(d, 3, 20) {
                GeneratorModel { stage: Stage::PerturbNote, ..self }
            } else {
                self.emit(self.selected as usize)
            },
            Stage::PerturbNote => self.emit(note_of_draw(d) as usize),
            Stage::Done => self,
        }
    }

    /// Feeds the draws in order until the generator is done or they run out.
    pub open spec fn run(self, draws: Seq<u64>) -> GeneratorModel
        decreases draws.len(),
    {
        if draws.len() == 0 || self.stage == Stage::Done {
            self
        } else {
            self.next(draws[0] as nat).run(draws.drop_first())
        }
    }

    pub open spec fn wf(self) -> bool {
        &&& self.length <= MAX_SEQUENCE_LENGTH
        &&& forall|i: int| 0 <= i < self.seq.len() ==> valid_entry(#[trigger] self.seq[i])
        &&& self.seq.len() <= 2 * self.pos
        &&& (self.pos <= self.length || self.pos == 1)
        &&& self.notes_since_rest <= self.pos
        &&& self.phrase_length < 8
        &&& self.selected < NUM_NOTES
        &&& (self.stage == Stage::StartNote ==> self.pos == 0 && self.seq.len() == 0)
        &&& (self.stage != Stage::StartNote ==> self.pos >= 1)
        &&& (self.stage == Stage::RestCheck || self.stage == Stage::RestCount || self.stage
            == Stage::Sample || self.stage == Stage::Perturb || self.stage == Stage::PerturbNote)
            ==> self.pos < self.length
    }

    /// The stage agrees with the position: the stages of a position are only
    /// reached before the last one.
    pub open spec fn paced(self) -> bool {
        &&& (self.stage == Stage::StartNote ==> self.pos == 0)
        &&& (self.stage == Stage::PhraseLength ==> self.pos == 1)
        &&& (self.stage == Stage::RestCheck || self.stage == Stage::RestCount || self.stage
            == Stage::Sample || self.stage == Stage::Perturb || self.stage == Stage::PerturbNote)
            ==> self.pos < self.length
    }

    /// Most draws still needed to finish: two for the start, then at most
    /// four per position.
    pub open spec fn draw_budget(self) -> int {
        let r = self.length - self.pos;
        match self.stage {
            Stage::StartNote => if self.length == 0 {
                2
            } else {
                4 * self.length - 2
            },
            Stage::PhraseLength => if self.length == 0 {
                1
            } else {
                4 * self.length - 3
            },
            Stage::RestCheck => 4 * r,
            Stage::RestCount => 4 * r - 3,
            Stage::Sample => 4 * r - 1,
            Stage::Perturb => 4 * r - 2,
            Stage::PerturbNote => 4 * r - 3,
            Stage::Done => 0,
        }
    }
}

/// Every step keeps the stage in pace and spends part of the budget.
pub proof fn lemma_step_spends_budget(s: GeneratorModel, d: nat)
    requires
        s.paced(),
        s.stage != Stage::Done,
    ensures
        s.next(d).paced(),
        s.next(d).draw_budget() < s.draw_budget(),
{
}

/// As many draws as the budget always complete the sequence.
pub proof fn lemma_run_completes(s: GeneratorModel, draws: Seq<u64>)
    requires
        s.paced(),
        draws.len() >= s.draw_budget(),
    ensures
        s.run(draws).stage == Stage::Done,
    decreases draws.len(),
{
    if s.stage != Stage::Done {
        lemma_step_spends_budget(s, draws[0] as nat);
        lemma_run_completes(s.next(draws[0] as nat), draws.drop_first());
    }
}

/// Generates a note sequence one random draw at a time.
pub struct SequenceGenerator {
    seq: Vec<usize>,
    pos: usize,
    length: usize,
    notes_since_rest: usize,
    phrase_length: usize,
    selected: usize,
    stage: Stage,
    melodic: bool,
    spacing: bool,
}

impl View for SequenceGenerator {
    type V = GeneratorModel;

    closed spec fn view(&self) -> GeneratorModel {
        GeneratorModel {
            seq: self.seq@,
            pos: self.pos as nat,
            length: self.length as nat,
            notes_since_rest: self.notes_since_rest as nat,
            phrase_length: self.phrase_length as nat,
            selected: self.selected as nat,
            stage: self.stage,
            melodic: self.melodic,
            spacing: self.spacing,
        }
    }
}

fn note_from_draw(draw: u64) -> (r: usize)
    requires
        draw < DRAW_SCALE,
    ensures
        r == note_of_draw(draw as nat),
        r < NUM_NOTES,
{
    ((draw * 8 / DRAW_SCALE) % 8) as usize
}

/// The fraction that `draw` stands for is below `num / den`.
fn draw_below(draw: u64, num: u64, den: u64) -> (r: bool)
    requires
        draw < DRAW_SCALE,
        num <= 20,
        den <= 20,
    ensures
        r == below(draw as nat, num as nat, den as nat),
{
    proof {
        assert(draw * den <= DRAW_SCALE * 20) by (nonlinear_arith)
            requires
                draw < DRAW_SCALE,
                den <= 20,
        ;
        assert(num * DRAW_SCALE <= 20 * DRAW_SCALE) by (nonlinear_arith)
            requires
                num <= 20,
        ;
    }
    draw * den < num * DRAW_SCALE
}

impl SequenceGenerator {
    /// A generator for `length` positions.
    pub fn new(length: usize, melodic: bool, spacing: bool) -> (r: SequenceGenerator)
        requires
            length <= MAX_SEQUENCE_LENGTH,
        ensures
            r@ == GeneratorModel::start(length as nat, melodic, spacing),
            r@.wf(),
    {
        SequenceGenerator {
            seq: Vec::new(),
            pos: 0,
            length,
            notes_since_rest: 0,
            phrase_length: 0,
            selected: 0,
            stage: Stage::StartNote,
            melodic,
            spacing,
        }
    }

    pub fn is_done(&self) -> (r: bool)
        ensures
            r == (self@.stage == Stage::Done),
    {
        self.stage == Stage::Done
    }

    /// The entries generated so far.
    pub fn into_sequence(self) -> (r: Vec<usize>)
        ensures
            r@ == self@.seq,
    {
        self.seq
    }

    fn enter(&mut self)
        ensures
            final(self)@ == old(self)@.enter(),
    {
        if self.pos >= self.length {
            self.stage = Stage::Done;
        } else if self.spacing && self.notes_since_rest >= self.phrase_length {
            self.stage = Stage::RestCheck;
        } else {
            self.stage = Stage::Sample;
        }
    }

    fn emit(&mut self, note: usize)
        requires
            old(self)@.wf(),
            old(self)@.pos < old(self)@.length,
            note < NUM_NOTES,
            old(self)@.stage == Stage::Perturb || old(self)@.stage == Stage::PerturbNote,
        ensures
            final(self)@ == old(self)@.emit(note),
            final(self)@.wf(),
    {
        self.seq.push(note);
        self.notes_since_rest = self.notes_since_rest + 1;
        self.pos = self.pos + 1;
        self.enter();
    }

    /// Consumes one draw, standing for the fraction `draw / DRAW_SCALE`.
    pub fn feed(&mut self, draw: u64)
        requires
            old(self)@.wf(),
            old(self)@.stage != Stage::Done,
            draw < DRAW_SCALE,
        ensures
            final(self)@ == old(self)@.next(draw as nat),
            final(self)@.wf(),
    {
        match self.stage {
            Stage::StartNote => {
                let note = note_from_draw(draw);
                self.seq.push(note);
                self.pos = 1;
                self.notes_since_rest = 1;
                self.stage = Stage::PhraseLength;
                proof {
                    assert(self@.seq =~= seq![note_of_draw(draw as nat) as usize]);
                }
            },
            Stage::PhraseLength => {
                self.phrase_length = 4 + (draw * 4 / DRAW_SCALE) as usize;
                self.enter();
            },
            Stage::RestCheck => {
                if draw_below(draw, 3, 5) {
                    self.stage = Stage::RestCount;
                } else {
                    self.stage = Stage::Sample;
                }
            },
            Stage::RestCount => {
                self.seq.push(REST_NOTE);
                if !draw_below(draw, 7, 10) {
                    self.seq.push(REST_NOTE);
                }
                self.notes_since_rest = 0;
                self.pos = self.pos + 1;
                self.enter();
            },
            Stage::Sample => {
                let scores = note_scores(self.melodic, &self.seq, self.pos);
                proof {
                    assert(scores@ =~= scores_seq(self.melodic, self.seq@, self.pos as nat));
                }
                self.selected = pick_note(&scores, draw);
                self.stage = Stage::Perturb;
            },
            Stage::Perturb => {
                if draw_below(draw, 3, 20) {
                    self.stage = Stage::PerturbNote;
                } else {
                    let note = self.selected;
                    self.emit(note);
                }
            },
            Stage::PerturbNote => {
                let note = note_from_draw(draw);
                self.emit(note);
            },
            Stage::Done => {},
        }
    }
}

} // verus!
