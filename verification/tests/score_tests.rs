use ow_replay_renderer::frame::GrayFrame;
use ow_replay_renderer::score::{self_identification_score, Score};

fn badge_a() -> GrayFrame {
    // a diagonal-ish pattern
    let mut data = vec![0u8; 64];
    for i in 0..8 {
        data[i * 8 + i] = 200;
        data[i * 8 + (7 - i)] = 120;
    }
    GrayFrame::from_bytes(8, 8, data).expect("badge a")
}

fn badge_b() -> GrayFrame {
    // a horizontal-bar pattern
    let mut data = vec![0u8; 64];
    for x in 0..8 {
        data[3 * 8 + x] = 220;
        data[4 * 8 + x] = 180;
    }
    GrayFrame::from_bytes(8, 8, data).expect("badge b")
}

#[test]
fn self_match_scores_higher_than_other_badge() {
    let a = badge_a();
    let b = badge_b();
    let self_score = self_identification_score(&a, &badge_a()).expect("self score");
    let other_score = self_identification_score(&a, &b).expect("other score");
    assert!(other_score.lt(&self_score));
    assert!(other_score.le(&self_score));
    assert!(!self_score.le(&other_score));
}

#[test]
fn self_match_is_perfect_correlation() {
    let a = badge_a();
    let s = self_identification_score(&a, &badge_a()).expect("self score");
    // normalized cross-correlation of an image with itself is exactly one
    assert_eq!((s.cross as u128) * (s.cross as u128), s.denom as u128);
    assert!(s.passes_threshold());
}

#[test]
fn inkless_or_oversized_badges_yield_no_score() {
    let a = badge_a();
    let black = GrayFrame::from_bytes(8, 8, vec![0u8; 64]).expect("black badge");
    assert!(self_identification_score(&a, &black).is_none());
    let big = GrayFrame::from_bytes(16, 16, vec![1u8; 256]).expect("big badge");
    assert!(self_identification_score(&a, &big).is_none());
}

#[test]
fn badge_is_found_inside_a_larger_frame() {
    let b = badge_b();
    // place badge b's pattern inside a 32x16 dark frame
    let mut data = vec![0u8; 32 * 16];
    for y in 0..8 {
        for x in 0..8 {
            data[(y + 4) * 32 + (x + 10)] = b.get(x as u32, y as u32);
        }
    }
    let live = GrayFrame::from_bytes(32, 16, data).expect("live frame");
    let s = self_identification_score(&live, &b).expect("score");
    assert_eq!((s.cross as u128) * (s.cross as u128), s.denom as u128);
}

#[test]
fn threshold_is_strict_nineteen_twentieths() {
    // value 0.99: passes
    let pass = Score { cross: 99, denom: 10000 };
    assert!(pass.passes_threshold());
    // value 0.94: fails
    let fail = Score { cross: 94, denom: 10000 };
    assert!(!fail.passes_threshold());
    // value exactly 0.95: the comparison is strict, so it fails
    let edge = Score { cross: 95, denom: 10000 };
    assert!(!edge.passes_threshold());
}
