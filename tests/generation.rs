use music_transformer::sequence::{
    attention_weight, consonance, note_scores, pick_note, DRAW_SCALE, REST_NOTE, WEIGHT_ONE,
};
use music_transformer::{MusicTransformer, SequenceGenerator};

fn scripted_draws(seed: u64, count: usize) -> Vec<u64> {
    let mut state = seed;
    let mut draws = Vec::new();
    for _ in 0..count {
        state = state
            .wrapping_mul(6364136223846793005)
            .wrapping_add(1442695040888963407);
        draws.push(state >> 11);
    }
    draws
}

#[test]
fn default_sequence_length_is_48() {
    let t = MusicTransformer::new();
    assert_eq!(t.get_sequence_length(), 48);
}

#[test]
fn sequence_length_follows_tempo_and_duration() {
    let mut t = MusicTransformer::new();
    t.set_tempo(60_000);
    t.set_target_duration(5_000);
    assert_eq!(t.get_sequence_length(), 16);
    t.set_tempo(240_000);
    t.set_target_duration(30_000);
    assert_eq!(t.get_sequence_length(), 240);
    t.set_tempo(100_000);
    t.set_target_duration(7_000);
    assert_eq!(t.get_sequence_length(), 24);
    for tempo in [60_000u64, 97_500, 120_000, 181_000, 240_000] {
        for duration in [5_000u64, 6_100, 12_000, 29_999, 30_000] {
            t.set_tempo(tempo);
            t.set_target_duration(duration);
            let exact = (duration * tempo + 29_999_999) / 30_000_000;
            let expected = exact.max(16) as usize;
            assert!(t.get_sequence_length() >= 16);
            assert_eq!(t.get_sequence_length(), expected);
        }
    }
}

#[test]
fn setters_clamp() {
    let mut t = MusicTransformer::new();
    assert_eq!(t.get_sample_rate(), 44_100_000);
    assert_eq!(t.get_target_duration(), 12_000);
    t.set_sample_rate(1);
    assert_eq!(t.get_sample_rate(), 22_050_000);
    t.set_sample_rate(100_000_000);
    assert_eq!(t.get_sample_rate(), 48_000_000);
    t.set_sample_rate(32_000_000);
    assert_eq!(t.get_sample_rate(), 32_000_000);
    t.set_target_duration(1_000);
    assert_eq!(t.get_target_duration(), 5_000);
    t.set_target_duration(40_000);
    assert_eq!(t.get_target_duration(), 30_000);
    t.set_tempo(10_000);
    t.set_target_duration(30_000);
    assert_eq!(t.get_sequence_length(), 60);
    t.set_tempo(1_000_000);
    assert_eq!(t.get_sequence_length(), 240);
}

#[test]
fn zero_draws_give_phrases_of_four() {
    let mut t = MusicTransformer::new();
    let draws = vec![0u64; 4 * 48 + 2];
    let seq = t.generate_sequence(&draws).unwrap();
    assert_eq!(seq.len(), 48);
    assert_eq!(seq[0], 0);
    for (i, &v) in seq.iter().enumerate() {
        if i % 5 == 4 {
            assert_eq!(v, REST_NOTE);
        } else {
            assert_eq!(v, 0);
        }
    }
    assert_eq!(t.get_sequence(), seq);
}

#[test]
fn zero_draws_without_spacing_have_no_rests() {
    let mut t = MusicTransformer::new();
    t.set_random_spacing(false);
    let seq = t.generate_sequence(&vec![0u64; 4 * 48 + 2]).unwrap();
    assert_eq!(seq, vec![0usize; 48]);
}

#[test]
fn generation_is_reproducible() {
    let draws = scripted_draws(7, 4 * 240 + 2);
    let mut a = MusicTransformer::new();
    let mut b = MusicTransformer::new();
    a.set_melodic(true);
    b.set_melodic(true);
    b.set_sample_rate(22_050_000);
    let sa = a.generate_sequence(&draws).unwrap();
    let sb = b.generate_sequence(&draws).unwrap();
    assert_eq!(sa, sb);
    let sc = a.generate_sequence(&draws).unwrap();
    assert_eq!(sa, sc);
}

#[test]
fn generated_entries_are_notes_or_rests() {
    for seed in 0..20u64 {
        let mut t = MusicTransformer::new();
        t.set_melodic(seed % 2 == 0);
        t.set_tempo(60_000 + seed * 9_000);
        let draws = scripted_draws(seed, 4 * 240 + 2);
        let seq = t.generate_sequence(&draws).unwrap();
        assert!(seq.len() >= t.get_sequence_length());
        assert!(seq.iter().all(|&v| v < 8 || v == REST_NOTE));
    }
}

#[test]
fn too_few_draws_leave_sequence_unchanged() {
    let mut t = MusicTransformer::new();
    assert_eq!(t.generate_sequence(&vec![0u64; 10]), None);
    assert!(t.get_sequence().is_empty());
    let first = t.generate_sequence(&vec![0u64; 200]).unwrap();
    assert_eq!(t.generate_sequence(&vec![0u64; 3]), None);
    assert_eq!(t.get_sequence(), first);
}

#[test]
fn melodic_scores_after_one_note() {
    let scores = note_scores(true, &vec![0], 1);
    let half = WEIGHT_ONE / 2;
    let expected: Vec<u64> = [16u64, 20, 20, 17, 14, 12, 6, 10]
        .iter()
        .map(|c| c * half)
        .collect();
    assert_eq!(scores, expected);
    let total: u64 = scores.iter().sum();
    let probabilities: Vec<f64> = scores.iter().map(|&s| s as f64 / total as f64).collect();
    let consonance_values = [0.8, 1.0, 1.0, 0.85, 0.7, 0.6, 0.3, 0.5];
    for k in 0..8 {
        assert!((probabilities[k] - consonance_values[k] / 5.75).abs() < 1e-9);
    }
    let sum: f64 = probabilities.iter().sum();
    assert!((sum - 1.0).abs() < 1e-6);
}

#[test]
fn rests_do_not_score() {
    let scores = note_scores(false, &vec![REST_NOTE, REST_NOTE], 2);
    assert_eq!(scores, vec![0u64; 8]);
    assert_eq!(pick_note(&scores, DRAW_SCALE / 2), 0);
}

#[test]
fn scores_sum_over_prior_notes() {
    // Non-melodic, notes 2 and 7 before position 3.
    let scores = note_scores(false, &vec![2, REST_NOTE, 7], 3);
    let w0 = WEIGHT_ONE / 4;
    let w2 = WEIGHT_ONE / 2;
    assert_eq!(scores[2], w0 * 20 + w2 * 16);
    assert_eq!(scores[7], w0 * 16 + w2 * 20);
    assert_eq!(scores[0], w0 * 18 + w2 * 19);
}

#[test]
fn consonance_tables() {
    let melodic: Vec<u64> = (0..9).map(|i| consonance(true, i)).collect();
    assert_eq!(melodic, vec![16, 20, 20, 17, 14, 12, 6, 10, 6]);
    let other: Vec<u64> = (0..9).map(|i| consonance(false, i)).collect();
    assert_eq!(other, vec![20, 10, 18, 18, 19, 16, 10, 19, 10]);
}

#[test]
fn attention_weights_fall_with_distance() {
    assert_eq!(attention_weight(0, 0), WEIGHT_ONE);
    assert_eq!(attention_weight(1, 0), WEIGHT_ONE / 2);
    assert_eq!(attention_weight(2, 5), WEIGHT_ONE / 4);
    assert_eq!(attention_weight(5, 2), WEIGHT_ONE / 4);
    assert_eq!(attention_weight(0, usize::MAX), 0);
}

#[test]
fn pick_note_is_inverse_cdf() {
    let uniform = vec![1u64; 8];
    assert_eq!(pick_note(&uniform, 0), 0);
    assert_eq!(pick_note(&uniform, DRAW_SCALE / 2), 3);
    assert_eq!(pick_note(&uniform, DRAW_SCALE / 2 + 1), 4);
    assert_eq!(pick_note(&uniform, DRAW_SCALE - 1), 7);
    let skewed = vec![0u64, 0, 3, 0, 0, 0, 0, 1];
    assert_eq!(pick_note(&skewed, 1), 2);
    assert_eq!(pick_note(&skewed, DRAW_SCALE / 4 * 3), 2);
    assert_eq!(pick_note(&skewed, DRAW_SCALE / 4 * 3 + 1), 7);
}

#[test]
fn generator_steps() {
    let mut g = SequenceGenerator::new(3, false, false);
    assert!(!g.is_done());
    g.feed(DRAW_SCALE - 1);
    g.feed(0);
    assert!(!g.is_done());
    // Sample, then a perturbation draw below 0.15, then a uniform note.
    g.feed(0);
    g.feed(0);
    g.feed(DRAW_SCALE / 8 * 5);
    // Sample and keep.
    g.feed(DRAW_SCALE - 1);
    g.feed(DRAW_SCALE - 1);
    assert!(g.is_done());
    let seq = g.into_sequence();
    assert_eq!(seq.len(), 3);
    assert_eq!(seq[0], 7);
    assert_eq!(seq[1], 5);
    assert_eq!(seq[2], 7);
}

#[test]
fn generator_double_rest() {
    let mut g = SequenceGenerator::new(6, false, true);
    g.feed(0);
    g.feed(0);
    for _ in 0..3 {
        g.feed(0);
        g.feed(DRAW_SCALE - 1);
    }
    // Phrase of four done: rest check below 0.6, then two rests.
    g.feed(0);
    g.feed(DRAW_SCALE - 1);
    // Position 5: a sampled note.
    g.feed(0);
    g.feed(DRAW_SCALE - 1);
    assert!(g.is_done());
    let seq = g.into_sequence();
    assert_eq!(seq, vec![0, 0, 0, 0, REST_NOTE, REST_NOTE, 0]);
}

#[test]
fn four_draws_per_position_suffice() {
    for seed in 0..40u64 {
        let mut t = MusicTransformer::new();
        t.set_melodic(seed % 3 == 0);
        t.set_random_spacing(seed % 5 != 0);
        t.set_tempo(60_000 + seed * 4_500);
        t.set_target_duration(5_000 + seed * 600);
        let length = t.get_sequence_length();
        let draws = scripted_draws(seed + 100, 4 * length - 2);
        assert!(t.generate_sequence(&draws).is_some());
    }
    let mut t = MusicTransformer::new();
    assert!(t.generate_sequence(&vec![DRAW_SCALE - 1; 4 * 48 - 2]).is_some());
    assert!(t.generate_sequence(&vec![0u64; 4 * 48 - 2]).is_some());
}
