use marketwise::change::{diff_factor, Change, DiffDuration, FLOOR_BP};
use marketwise::model::MarketId;
use marketwise::platforms::Platform;

/// A probability as basis points.
fn bp(p: f64) -> u32 {
    (p * 10_000.0).round() as u32
}

#[test]
fn change_comparison() {
    let a = Change::new_from05(DiffDuration::Day, bp(0.45));
    let b = Change::new_from05(DiffDuration::Day, bp(0.44));
    assert!(a < b); // -5% < -6% change
    let c = Change::new_from05(DiffDuration::Day, bp(0.56));
    assert!(a < c); // -5% < +6% change
    let d = Change::new_from05(DiffDuration::Day, bp(0.46));
    assert!(a > d); // -5% < -4% change
    let e = Change::new_from05(DiffDuration::Hour, bp(0.47));
    assert!(a < e); // -5% day < -3% hour
    let f = Change::new_from05(DiffDuration::Week, bp(0.1));
    assert!(a < f); // -5% day < -40% week
}

#[test]
fn change_comparison2() {
    let a = Change::new_from05(DiffDuration::Day, bp(0.7));
    let b = Change::new_from05(DiffDuration::Week, bp(0.89));
    assert!(a > b); // +20 day > +39% week
    let c = Change::new_from05(DiffDuration::Week, bp(0.91));
    assert!(a < c); // +20 day < +39% week
    let d = Change::new_from05(DiffDuration::Hour, bp(0.65));
    assert!(a < d); // +20% day < +15% hour
    let e = Change::new_from05(DiffDuration::Hour, bp(0.56));
    assert!(a > e); // +20% day > +6% hour
}

#[test]
fn significance_exact_values() {
    // 5 points over a day: 500 bp * 2 = 1000.
    let a = Change::new_from05(DiffDuration::Day, bp(0.45));
    assert_eq!(a.significance(), 1_000);
    // 3 points over an hour: 300 bp * 6 = 1800.
    let b = Change::new_from05(DiffDuration::Hour, bp(0.47));
    assert_eq!(b.significance(), 1_800);
    // 40 points over a week: 4000 bp * 1 = 4000.
    let c = Change::new_from05(DiffDuration::Week, bp(0.1));
    assert_eq!(c.significance(), 4_000);
}

#[test]
fn window_weights() {
    assert_eq!(diff_factor(DiffDuration::Hour), 6);
    assert_eq!(diff_factor(DiffDuration::Day), 2);
    assert_eq!(diff_factor(DiffDuration::Week), 1);
}

#[test]
fn window_weighting_example() {
    // A 3-point hourly move outranks a 5-point daily move: 300*6 > 500*2.
    let day = Change::new_from05(DiffDuration::Day, bp(0.45));
    let hour = Change::new_from05(DiffDuration::Hour, bp(0.47));
    assert!(day < hour);
    assert_eq!(hour.significance(), 1_800);
    assert_eq!(day.significance(), 1_000);
}

#[test]
fn floor_enforcement() {
    // 19.99 points is under the floor, whatever the window.
    let small = Change::new_from05(DiffDuration::Hour, 5_000 + FLOOR_BP - 1);
    assert!(!small.eligible());
    // Exactly 20 points clears it.
    let exact = Change::new_from05(DiffDuration::Week, 5_000 + FLOOR_BP);
    assert!(exact.eligible());
    let down = Change::new_from05(DiffDuration::Day, 5_000 - FLOOR_BP);
    assert!(down.eligible());
}

#[test]
fn abs_diff_both_directions() {
    let up = Change::new_from05(DiffDuration::Day, bp(0.8));
    assert_eq!(up.abs_diff(), 3_000);
    let down = Change::new_from05(DiffDuration::Day, bp(0.2));
    assert_eq!(down.abs_diff(), 3_000);
}

#[test]
fn message_text_exact() {
    let c = Change {
        platform: Platform::Manifold,
        id: MarketId { base: "m1".to_string(), sub: None },
        duration: DiffDuration::Hour,
        p_before: 5_000,
        p_after: 8_000,
        url: "https://example.test/m1".to_string(),
        title: "Will it happen?".to_string(),
    };
    assert_eq!(
        c.to_string(),
        "+30% in an hour \u{1F4C8} Will it happen?\nhttps://example.test/m1 #prediction #Manifold"
    );
}

#[test]
fn message_text_negative_rounding() {
    let c = Change {
        platform: Platform::Metaculus,
        id: MarketId { base: "q7".to_string(), sub: None },
        duration: DiffDuration::Week,
        p_before: 9_000,
        p_after: 1_550,
        url: "u".to_string(),
        title: "t".to_string(),
    };
    // A fall of 74.5 points rounds to 75, with the downward mark.
    assert_eq!(c.to_string(), "-75% in a week \u{1F4C9} t\nu #prediction #Metaculus");
}

#[test]
fn message_text_small_move() {
    let c = Change {
        platform: Platform::Polymarket,
        id: MarketId { base: "s".to_string(), sub: None },
        duration: DiffDuration::Day,
        p_before: 5_000,
        p_after: 5_040,
        url: "u".to_string(),
        title: "t".to_string(),
    };
    // 0.4 points rounds to zero but keeps its sign.
    assert_eq!(c.to_string(), "+0% in a day \u{1F4C8} t\nu #prediction #Polymarket");
}
