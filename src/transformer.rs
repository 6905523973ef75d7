//! Configuration, sequence generation driver and the audio layout of a sequence.
use vstd::prelude::*;
use crate::generator::{GeneratorModel, SequenceGenerator, Stage, lemma_run_completes};
use crate::instrument::InstrumentType;
use crate::sequence::{DRAW_SCALE, MAX_SEQUENCE_LENGTH, REST_NOTE, valid_entry};

verus! {

/// Tempo bounds, in thousandths of a beat per minute.
pub const MIN_TEMPO: u64 = 60000;
pub const MAX_TEMPO: u64 = 240000;

/// Sample rate bounds, in thousandths of a hertz.
pub const MIN_SAMPLE_RATE: u64 = 22050000;
pub const MAX_SAMPLE_RATE: u64 = 48000000;

/// Target duration bounds, in milliseconds.
pub const MIN_TARGET_DURATION: u64 = 5000;
pub const MAX_TARGET_DURATION: u64 = 30000;

/// Most samples a note can span: 48000 Hz at 60 BPM.
pub const MAX_SAMPLES_PER_NOTE: usize = 24000;

/// Fewest positions a sequence is generated with.
pub const MIN_SEQUENCE_LENGTH: usize = 16;

/// An eighth note lasts 30 / tempo seconds; with the tempo in thousandths of
/// a beat per minute and times in milliseconds that is
/// `NOTE_DURATION_FACTOR / tempo` thousandths of a second.
pub const NOTE_DURATION_FACTOR: u64 = 30000000;

/// Mathematical state of a [`MusicTransformer`].
pub struct TransformerModel {
    pub sequence: Seq<usize>,
    /// Thousandths of a beat per minute.
    pub tempo: nat,
    /// Thousandths of a hertz.
    pub sample_rate: nat,
    /// Milliseconds.
    pub target_duration: nat,
    pub melodic: bool,
    pub spacing: bool,
    pub instrument: InstrumentType,
}

pub open spec fn clamp(v: nat, lo: nat, hi: nat) -> nat {
    if v < lo {
        lo
    } else if v > hi {
        hi
    } else {
        v
    }
}

pub open spec fn ceil_div(a: nat, b: nat) -> nat
    recommends
        b > 0,
{
    ((a + b - 1) as nat) / b
}

/// `max(16, ceil(target_duration / note_duration))`.
pub open spec fn sequence_length_spec(tempo: nat, target_duration: nat) -> nat {
    let n = ceil_div(target_duration * tempo, NOTE_DURATION_FACTOR as nat);
    if n < MIN_SEQUENCE_LENGTH {
        MIN_SEQUENCE_LENGTH as nat
    } else {
        n
    }
}

/// `floor(sample_rate * note_duration)`.
pub open spec fn samples_per_note_spec(sample_rate: nat, tempo: nat) -> nat {
    sample_rate * 30 / tempo
}

/// `floor(sample_rate * 0.1)`: the silence rendered for an empty sequence.
pub open spec fn silence_samples_spec(sample_rate: nat) -> nat {
    sample_rate / 10000
}

/// `len * note_duration`, in microseconds, rounded down.
pub open spec fn duration_micros_spec(len: nat, tempo: nat) -> nat {
    len * (NOTE_DURATION_FACTOR as nat * 1000) / tempo
}

impl TransformerModel {
    pub open spec fn wf(self) -> bool {
        &&& MIN_TEMPO <= self.tempo <= MAX_TEMPO
        &&& MIN_SAMPLE_RATE <= self.sample_rate <= MAX_SAMPLE_RATE
        &&& MIN_TARGET_DURATION <= self.target_duration <= MAX_TARGET_DURATION
        &&& self.sequence.len() <= 2 * MAX_SEQUENCE_LENGTH
        &&& forall|i: int| 0 <= i < self.sequence.len() ==> valid_entry(#[trigger] self.sequence[i])
    }

    /// The generator that a generation call starts from.
    pub open spec fn generation_start(self) -> GeneratorModel {
        GeneratorModel::start(
            sequence_length_spec(self.tempo, self.target_duration),
            self.melodic,
            self.spacing,
        )
    }

    pub open spec fn samples_per_note(self) -> nat {
        samples_per_note_spec(self.sample_rate, self.tempo)
    }
}

/// The samples of one sounding note: `start..end` of the buffer, for the
/// note at sequence index `position`.
#[derive(Clone, Copy, Debug, PartialEq, Eq, Structural)]
pub struct NoteSpan {
    pub position: usize,
    pub note: usize,
    pub start: usize,
    pub end: usize,
}

/// Where each sounding note of a sequence lies in the sample buffer.
/// Positions holding rests have no span and stay silent.
pub struct AudioLayout {
    pub total_samples: usize,
    pub samples_per_note: usize,
    pub spans: Vec<NoteSpan>,
}

/// The spans of the non-rest entries among the first `n` of `seq`, in order.
pub open spec fn note_spans(seq: Seq<usize>, spn: nat, n: nat) -> Seq<NoteSpan>
    decreases n,
{
    if n == 0 {
        Seq::empty()
    } else if seq[n - 1] == REST_NOTE {
        note_spans(seq, spn, (n - 1) as nat)
    } else {
        note_spans(seq, spn, (n - 1) as nat).push(
            NoteSpan {
                position: (n - 1) as usize,
                note: seq[n - 1],
                start: ((n - 1) * spn) as usize,
                end: (n * spn) as usize,
            },
        )
    }
}

/// Every span lies on a sounding entry and covers exactly its share of the buffer.
pub proof fn lemma_note_spans_shape(seq: Seq<usize>, spn: nat, n: nat, k: int)
    requires
        n <= seq.len(),
        n <= usize::MAX,
        n * spn <= usize::MAX,
        0 <= k < note_spans(seq, spn, n).len(),
    ensures
        ({
            let s = note_spans(seq, spn, n)[k];
            &&& s.position < n
            &&& seq[s.position as int] != REST_NOTE
            &&& s.note == seq[s.position as int]
            &&& s.start == s.position * spn
            &&& s.end == (s.position + 1) * spn
        }),
    decreases n,
{
    let prev = note_spans(seq, spn, (n - 1) as nat);
    assert((n - 1) * spn <= n * spn) by (nonlinear_arith)
        requires
            n >= 1,
    ;
    if k < prev.len() {
        lemma_note_spans_shape(seq, spn, (n - 1) as nat, k);
    }
}

/// A rest stays silent: the span of every sounding note is disjoint from
/// the share of the buffer that belongs to a rest position.
pub proof fn rest_positions_stay_silent(seq: Seq<usize>, spn: nat, i: int, k: int)
    requires
        0 <= i < seq.len(),
        seq[i] == REST_NOTE,
        seq.len() <= usize::MAX,
        seq.len() * spn <= usize::MAX,
        0 <= k < note_spans(seq, spn, seq.len()).len(),
    ensures
        ({
            let s = note_spans(seq, spn, seq.len())[k];
            s.end <= i * spn || (i + 1) * spn <= s.start
        }),
{
    lemma_note_spans_shape(seq, spn, seq.len(), k);
    let p = note_spans(seq, spn, seq.len())[k].position as int;
    assert(p != i);
    if p < i {
        assert((p + 1) * spn <= i * spn) by (nonlinear_arith)
            requires
                p + 1 <= i,
        ;
    } else {
        assert((i + 1) * spn <= p * spn) by (nonlinear_arith)
            requires
                i + 1 <= p,
        ;
    }
}

/// Generation is reproducible: two transformers that agree on tempo, target
/// duration and the two mode flags produce the same sequence from the same
/// draws, whatever else differs between them.
pub proof fn generation_is_deterministic(a: TransformerModel, b: TransformerModel, draws: Seq<u64>)
    requires
        a.tempo == b.tempo,
        a.target_duration == b.target_duration,
        a.melodic == b.melodic,
        a.spacing == b.spacing,
    ensures
        a.generation_start().run(draws) == b.generation_start().run(draws),
{
}

/// Generates note sequences and lays them out as audio.
pub struct MusicTransformer {
    current_sequence: Vec<usize>,
    tempo: u64,
    melodic_mode: bool,
    random_spacing: bool,
    instrument: InstrumentType,
    sample_rate: u64,
    target_duration: u64,
}

impl View for MusicTransformer {
    type V = TransformerModel;

    closed spec fn view(&self) -> TransformerModel {
        TransformerModel {
            sequence: self.current_sequence@,
            tempo: self.tempo as nat,
            sample_rate: self.sample_rate as nat,
            target_duration: self.target_duration as nat,
            melodic: self.melodic_mode,
            spacing: self.random_spacing,
            instrument: self.instrument,
        }
    }
}

fn clamp_u64(v: u64, lo: u64, hi: u64) -> (r: u64)
    requires
        lo <= hi,
    ensures
        r == clamp(v as nat, lo as nat, hi as nat),
{
    if v < lo {
        lo
    } else if v > hi {
        hi
    } else {
        v
    }
}

impl MusicTransformer {
    /// Tempo 120 BPM, 44100 Hz, 12 s target, melodic mode off, rests between
    /// phrases on, the Robo instrument and no sequence yet.
    pub fn new() -> (r: MusicTransformer)
        ensures
            r@ == (TransformerModel {
                sequence: Seq::empty(),
                tempo: 120000,
                sample_rate: 44100000,
                target_duration: 12000,
                melodic: false,
                spacing: true,
                instrument: InstrumentType::Robo,
            }),
            r@.wf(),
    {
        MusicTransformer {
            current_sequence: Vec::new(),
            tempo: 120000,
            melodic_mode: false,
            random_spacing: true,
            instrument: InstrumentType::Robo,
            sample_rate: 44100000,
            target_duration: 12000,
        }
    }

    pub fn set_melodic(&mut self, melodic: bool)
        requires
            old(self)@.wf(),
        ensures
            final(self)@ == (TransformerModel { melodic, ..old(self)@ }),
            final(self)@.wf(),
    {
        self.melodic_mode = melodic;
    }

    pub fn set_random_spacing(&mut self, random_spacing: bool)
        requires
            old(self)@.wf(),
        ensures
            final(self)@ == (TransformerModel { spacing: random_spacing, ..old(self)@ }),
            final(self)@.wf(),
    {
        self.random_spacing = random_spacing;
    }

    pub fn set_instrument(&mut self, instrument: InstrumentType)
        requires
            old(self)@.wf(),
        ensures
            final(self)@ == (TransformerModel { instrument, ..old(self)@ }),
            final(self)@.wf(),
    {
        self.instrument = instrument;
    }

    /// Sets the tempo, given in thousandths of a beat per minute, clamped to
    /// [60, 240] BPM.
    pub fn set_tempo(&mut self, milli_bpm: u64)
        requires
            old(self)@.wf(),
        ensures
            final(self)@ == (TransformerModel {
                tempo: clamp(milli_bpm as nat, MIN_TEMPO as nat, MAX_TEMPO as nat),
                ..old(self)@
            }),
            final(self)@.wf(),
    {
        self.tempo = clamp_u64(milli_bpm, MIN_TEMPO, MAX_TEMPO);
    }

    /// Sets the sample rate, given in thousandths of a hertz, clamped to
    /// [22050, 48000] Hz.
    pub fn set_sample_rate(&mut self, milli_hz: u64)
        requires
            old(self)@.wf(),
        ensures
            final(self)@ == (TransformerModel {
                sample_rate: clamp(milli_hz as nat, MIN_SAMPLE_RATE as nat, MAX_SAMPLE_RATE as nat),
                ..old(self)@
            }),
            final(self)@.wf(),
    {
        self.sample_rate = clamp_u64(milli_hz, MIN_SAMPLE_RATE, MAX_SAMPLE_RATE);
    }

    /// Sets the target duration, given in milliseconds, clamped to [5, 30] s.
    pub fn set_target_duration(&mut self, millis: u64)
        requires
            old(self)@.wf(),
        ensures
            final(self)@ == (TransformerModel {
                target_duration: clamp(
                    millis as nat,
                    MIN_TARGET_DURATION as nat,
                    MAX_TARGET_DURATION as nat,
                ),
                ..old(self)@
            }),
            final(self)@.wf(),
    {
        self.target_duration = clamp_u64(millis, MIN_TARGET_DURATION, MAX_TARGET_DURATION);
    }

    /// The sample rate in thousandths of a hertz.
    pub fn get_sample_rate(&self) -> (r: u64)
        ensures
            r == self@.sample_rate,
    {
        self.sample_rate
    }

    /// The target duration in milliseconds.
    pub fn get_target_duration(&self) -> (r: u64)
        ensures
            r == self@.target_duration,
    {
        self.target_duration
    }

    /// Number of positions to generate: enough eighth notes at the current
    /// tempo to fill the target duration, and at least 16.
    pub fn get_sequence_length(&self) -> (r: usize)
        requires
            self@.wf(),
        ensures
            r == sequence_length_spec(self@.tempo, self@.target_duration),
            MIN_SEQUENCE_LENGTH <= r <= MAX_SEQUENCE_LENGTH,
    {
        proof {
            assert(self.target_duration * self.tempo <= MAX_TARGET_DURATION * MAX_TEMPO)
                by (nonlinear_arith)
                requires
                    self.target_duration <= MAX_TARGET_DURATION,
                    self.tempo <= MAX_TEMPO,
            ;
        }
        let product = self.target_duration * self.tempo;
        let n = (product + (NOTE_DURATION_FACTOR - 1)) / NOTE_DURATION_FACTOR;
        if n < MIN_SEQUENCE_LENGTH as u64 {
            MIN_SEQUENCE_LENGTH
        } else {
            n as usize
        }
    }

    pub fn get_instrument(&self) -> (r: InstrumentType)
        ensures
            r == self@.instrument,
    {
        self.instrument
    }

    /// The current sequence.
    pub fn get_sequence(&self) -> (r: Vec<usize>)
        ensures
            r@ == self@.sequence,
    {
        self.current_sequence.clone()
    }

    /// Length of the current sequence in microseconds at the current tempo
    /// (0 when there is none).
    pub fn get_duration(&self) -> (r: u64)
        requires
            self@.wf(),
        ensures
            r == duration_micros_spec(self@.sequence.len(), self@.tempo),
    {
        let len = self.current_sequence.len() as u64;
        proof {
            assert(len * (NOTE_DURATION_FACTOR * 1000) <= 2 * MAX_SEQUENCE_LENGTH * (
            NOTE_DURATION_FACTOR * 1000)) by (nonlinear_arith)
                requires
                    len <= 2 * MAX_SEQUENCE_LENGTH,
            ;
        }
        len * (NOTE_DURATION_FACTOR * 1000) / self.tempo
    }

    /// Generates a new sequence from the given draws, each standing for the
    /// fraction `draw / DRAW_SCALE` of [0, 1), consumed in order. Returns the
    /// sequence and stores it as the current one; returns `None` and changes
    /// nothing when the draws run out first.
    pub fn generate_sequence(&mut self, draws: &Vec<u64>) -> (r: Option<Vec<usize>>)
        requires
            old(self)@.wf(),
            forall|i: int| 0 <= i < draws@.len() ==> #[trigger] draws@[i] < DRAW_SCALE,
        ensures
            final(self)@.wf(),
            ({
                let fin = old(self)@.generation_start().run(draws@);
                &&& r.is_some() == (fin.stage == Stage::Done)
                &&& r.is_some() ==> r.unwrap()@ == fin.seq && final(self)@ == (TransformerModel {
                    sequence: fin.seq,
                    ..old(self)@
                })
                &&& r.is_none() ==> final(self)@ == old(self)@
            }),
            r.is_some() ==> forall|i: int|
                0 <= i < r.unwrap()@.len() ==> valid_entry(#[trigger] r.unwrap()@[i]),
            4 * sequence_length_spec(old(self)@.tempo, old(self)@.target_duration) <= draws@.len()
                + 2 ==> r.is_some(),
    {
        let length = self.get_sequence_length();
        let mut generator = SequenceGenerator::new(length, self.melodic_mode, self.random_spacing);
        let ghost start = generator@;
        proof {
            if 4 * length <= draws@.len() + 2 {
                lemma_run_completes(start, draws@);
            }
        }
        assert(draws@.skip(0) =~= draws@);
        let mut i: usize = 0;
        while i < draws.len() && !generator.is_done()
            invariant
                i <= draws@.len(),
                generator@.wf(),
                forall|j: int| 0 <= j < draws@.len() ==> #[trigger] draws@[j] < DRAW_SCALE,
                generator@.run(draws@.skip(i as int)) == start.run(draws@),
                start == old(self)@.generation_start(),
            decreases draws@.len() - i,
        {
            proof {
                let rest = draws@.skip(i as int);
                assert(rest[0] == draws@[i as int]);
                assert(rest.drop_first() =~= draws@.skip(i + 1));
            }
            generator.feed(draws[i]);
            i = i + 1;
        }
        proof {
            if i == draws.len() {
                assert(draws@.skip(i as int).len() == 0);
            }
        }
        if generator.is_done() {
            let sequence = generator.into_sequence();
            self.current_sequence = sequence.clone();
            Some(sequence)
        } else {
            None
        }
    }

    /// Samples in one note: `floor(sample_rate * note_duration)`.
    pub fn samples_per_note(&self) -> (r: usize)
        requires
            self@.wf(),
        ensures
            r == self@.samples_per_note(),
            r <= MAX_SAMPLES_PER_NOTE,
    {
        proof {
            let sr = self.sample_rate as int;
            let t = self.tempo as int;
            assert(sr * 30 / t <= sr * 30 / (MIN_TEMPO as int)) by (nonlinear_arith)
                requires
                    sr >= 0,
                    t >= MIN_TEMPO,
            ;
            assert(sr * 30 / (MIN_TEMPO as int) <= MAX_SAMPLES_PER_NOTE) by (nonlinear_arith)
                requires
                    sr <= MAX_SAMPLE_RATE,
            ;
        }
        (self.sample_rate * 30 / self.tempo) as usize
    }

    /// Lays out the current sequence as audio: the buffer holds
    /// `len(sequence) * samples_per_note` samples (a short silence when there
    /// is no sequence), and each non-rest entry owns its own stretch of it.
    pub fn audio_layout(&self) -> (r: AudioLayout)
        requires
            self@.wf(),
        ensures
            r.samples_per_note == self@.samples_per_note(),
            r.total_samples == if self@.sequence.len() == 0 {
                silence_samples_spec(self@.sample_rate)
            } else {
                self@.sequence.len() * self@.samples_per_note()
            },
            r.spans@ == note_spans(self@.sequence, self@.samples_per_note(), self@.sequence.len()),
    {
        let spn = self.samples_per_note();
        let len = self.current_sequence.len();
        proof {
            assert(len * spn <= 2 * MAX_SEQUENCE_LENGTH * MAX_SAMPLES_PER_NOTE)
                by (nonlinear_arith)
                requires
                    len <= 2 * MAX_SEQUENCE_LENGTH,
                    spn <= MAX_SAMPLES_PER_NOTE,
            ;
        }
        let total_samples = if len == 0 {
            (self.sample_rate / 10000) as usize
        } else {
            len * spn
        };
        let mut spans: Vec<NoteSpan> = Vec::new();
        let mut i: usize = 0;
        while i < len
            invariant
                i <= len,
                len == self@.sequence.len(),
                len * spn <= 2 * MAX_SEQUENCE_LENGTH * MAX_SAMPLES_PER_NOTE,
                spn == self@.samples_per_note(),
                spans@ == note_spans(self@.sequence, spn as nat, i as nat),
            decreases len - i,
        {
            proof {
                assert((i + 1) * spn <= len * spn) by (nonlinear_arith)
                    requires
                        i + 1 <= len,
                ;
                assert(i * spn <= (i + 1) * spn) by (nonlinear_arith);
            }
            let note = self.current_sequence[i];
            if note != REST_NOTE {
                spans.push(NoteSpan { position: i, note, start: i * spn, end: (i + 1) * spn });
            }
            i = i + 1;
        }
        AudioLayout { total_samples, samples_per_note: spn, spans }
    }
}

} // verus!
