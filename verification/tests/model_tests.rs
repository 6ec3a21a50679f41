use marketwise::change::DiffDuration;
use marketwise::model::{MarketId, Model, MAX_TS};
use marketwise::platforms::{MarketStatus, Platform};

fn mid(base: &str) -> MarketId {
    MarketId { base: base.to_string(), sub: None }
}

fn mid_sub(base: &str, sub: &str) -> MarketId {
    MarketId { base: base.to_string(), sub: Some(sub.to_string()) }
}

fn store(m: &mut Model, time: i64, id: &MarketId, prob: u32) -> Option<u32> {
    m.update_prob(time, Platform::Manifold, id.duplicate(), prob, "u".to_string(), "t".to_string())
}

#[test]
fn append_latest_round_trip() {
    let mut m = Model::new();
    let id = mid("m1");
    assert!(m.latest(Platform::Manifold, &id).is_none());
    let prev = store(&mut m, 1_000, &id, 4_200);
    assert_eq!(prev, None);
    let o = m.latest(Platform::Manifold, &id).expect("stored");
    assert_eq!(o.prob, 4_200);
    assert_eq!(o.time, 1_000);
    let prev2 = store(&mut m, 2_000, &id, 6_100);
    assert_eq!(prev2, Some(4_200));
    let o2 = m.latest(Platform::Manifold, &id).expect("stored");
    assert_eq!(o2.prob, 6_100);
    assert_eq!(o2.time, 2_000);
}

#[test]
fn invalid_probability_is_ignored() {
    let mut m = Model::new();
    let id = mid("m1");
    let prev = store(&mut m, 1_000, &id, 10_001);
    assert_eq!(prev, None);
    assert!(m.latest(Platform::Manifold, &id).is_none());
}

#[test]
fn latest_distinguishes_markets_and_platforms() {
    let mut m = Model::new();
    store(&mut m, 1_000, &mid("m1"), 1_111);
    store(&mut m, 1_000, &mid("m2"), 2_222);
    m.update_prob(
        1_000,
        Platform::Metaculus,
        mid("m1"),
        3_333,
        "u".to_string(),
        "t".to_string(),
    );
    assert_eq!(m.latest(Platform::Manifold, &mid("m1")).unwrap().prob, 1_111);
    assert_eq!(m.latest(Platform::Manifold, &mid("m2")).unwrap().prob, 2_222);
    assert_eq!(m.latest(Platform::Metaculus, &mid("m1")).unwrap().prob, 3_333);
    // A sub-answer is a market of its own.
    assert!(m.latest(Platform::Manifold, &mid_sub("m1", "3")).is_none());
}

#[test]
fn closest_to_picks_nearest_in_band() {
    let mut m = Model::new();
    let id = mid("m1");
    store(&mut m, 1_000, &id, 1_000);
    store(&mut m, 1_400, &id, 2_000);
    store(&mut m, 3_000, &id, 3_000);
    let o = m.closest_to(Platform::Manifold, &id, 1_300, 400, 400).expect("in band");
    assert_eq!(o.time, 1_400);
    assert!(m.closest_to(Platform::Manifold, &id, 10_000, 100, 100).is_none());
}

#[test]
fn window_resolution_absence_single_observation() {
    let mut m = Model::new();
    let id = mid("m1");
    store(&mut m, 1_000_000, &id, 5_000);
    // One observation: nothing to compare against, no candidate at all.
    assert!(m.most_noteworthy_change(1_000_000).is_none());
}

#[test]
fn most_noteworthy_hour_candidate() {
    let mut m = Model::new();
    let id = mid("m1");
    let t0 = 1_000_000;
    store(&mut m, t0, &id, 5_000);
    store(&mut m, t0 + 3_600, &id, 8_000);
    let c = m.most_noteworthy_change(t0 + 3_600).expect("candidate");
    assert_eq!(c.duration, DiffDuration::Hour);
    assert_eq!(c.p_before, 5_000);
    assert_eq!(c.p_after, 8_000);
    assert_eq!(c.platform, Platform::Manifold);
    assert_eq!(c.id.base, "m1");
}

#[test]
fn most_noteworthy_respects_floor() {
    let mut m = Model::new();
    let id = mid("m1");
    let t0 = 1_000_000;
    store(&mut m, t0, &id, 5_000);
    // 19 points in an hour: big score, still under the floor.
    store(&mut m, t0 + 3_600, &id, 6_900);
    assert!(m.most_noteworthy_change(t0 + 3_600).is_none());
}

#[test]
fn most_noteworthy_prefers_faster_window() {
    let mut m = Model::new();
    let id_day = mid("slow");
    let id_hour = mid("fast");
    let t0 = 10_000_000;
    let now = t0;
    // 50-point move over a day: significance 5000 * 2 = 10000.
    store(&mut m, t0 - 86_400, &id_day, 2_000);
    store(&mut m, t0, &id_day, 7_000);
    // 25-point move over an hour: significance 2500 * 6 = 15000.
    store(&mut m, t0 - 3_600, &id_hour, 5_000);
    store(&mut m, t0, &id_hour, 7_500);
    let c = m.most_noteworthy_change(now).expect("candidate");
    assert_eq!(c.id.base, "fast");
    assert_eq!(c.duration, DiffDuration::Hour);
}

#[test]
fn stale_market_yields_no_candidate() {
    let mut m = Model::new();
    let stale = mid("old");
    let active = mid("new");
    let t0 = 10_000_000;
    // The stale market moved, but its newest reading is an hour older
    // than the newest reading in the store.
    store(&mut m, t0 - 7_200, &stale, 1_000);
    store(&mut m, t0 - 3_600, &stale, 9_000);
    store(&mut m, t0, &active, 5_000);
    assert!(m.most_noteworthy_change(t0).is_none());
}

#[test]
fn dedup_idempotence() {
    let mut m = Model::new();
    let id = mid_sub("m1", "2");
    let t0 = 1_000_000;
    store(&mut m, t0, &id, 5_000);
    store(&mut m, t0 + 3_600, &id, 8_000);
    let now = t0 + 3_600;
    let c = m.decide_publication(now, 0).expect("publishable");
    assert!(!m.recently_published(c.platform, &c.id));
    m.log_publication(&c, now);
    assert!(m.recently_published(c.platform, &c.id));
    // The base market and any sub-answer variant are suppressed alike.
    assert!(m.recently_published(c.platform, &mid("m1")));
    assert!(m.recently_published(c.platform, &mid_sub("m1", "7")));
    assert!(!m.recently_published(c.platform, &mid("m2")));
    assert!(!m.should_publish(&c, now, 0));
    assert!(m.decide_publication(now, 0).is_none());
}

#[test]
fn dedup_ages_out_of_window() {
    let mut m = Model::new();
    let id = mid("m1");
    let t0 = 1_000_000;
    store(&mut m, t0, &id, 5_000);
    store(&mut m, t0 + 3_600, &id, 8_000);
    let now = t0 + 3_600;
    let c = m.decide_publication(now, 0).expect("publishable");
    m.log_publication(&c, now);
    assert!(m.recently_published(Platform::Manifold, &id));
    // Thirty newer announcements push the record out of the window.
    for k in 0..30i64 {
        let other = marketwise::change::Change {
            platform: Platform::Metaculus,
            id: mid(&format!("q{}", k)),
            duration: DiffDuration::Hour,
            p_before: 1_000,
            p_after: 9_000,
            url: "u".to_string(),
            title: "t".to_string(),
        };
        m.log_publication(&other, now + 1 + k);
    }
    assert!(!m.recently_published(Platform::Manifold, &id));
}

#[test]
fn silence_enforcement() {
    let mut m = Model::new();
    let id = mid("m1");
    let t0 = 1_000_000;
    store(&mut m, t0, &id, 5_000);
    store(&mut m, t0 + 3_600, &id, 8_000);
    let now = t0 + 3_600;
    let c = m.most_noteworthy_change(now).expect("candidate");
    // An earlier announcement of some other market.
    let other = marketwise::change::Change {
        platform: Platform::Polymarket,
        id: mid("p1"),
        duration: DiffDuration::Day,
        p_before: 1_000,
        p_after: 9_000,
        url: "u".to_string(),
        title: "t".to_string(),
    };
    m.log_publication(&other, now - 3_600);
    let four_hours = 4 * 3_600;
    // One hour of silence is not four hours.
    assert!(!m.should_publish(&c, now, four_hours));
    assert!(m.decide_publication(now, four_hours).is_none());
    // Within the ten-minute jitter slack of the full interval it fires.
    assert!(m.should_publish(&c, now - 3_600 + four_hours - 600, four_hours));
    // And comfortably after the interval it fires too.
    assert!(m.should_publish(&c, now - 3_600 + four_hours + 1, four_hours));
    // No publication log at all means unbounded silence.
    let fresh = Model::new();
    assert_eq!(fresh.duration_since_last_publication(now), None);
}

#[test]
fn duration_since_last_publication_counts_from_newest() {
    let mut m = Model::new();
    assert_eq!(m.duration_since_last_publication(5_000), None);
    let c = marketwise::change::Change {
        platform: Platform::Manifold,
        id: mid("m1"),
        duration: DiffDuration::Hour,
        p_before: 1_000,
        p_after: 9_000,
        url: "u".to_string(),
        title: "t".to_string(),
    };
    m.log_publication(&c, 4_000);
    assert_eq!(m.duration_since_last_publication(10_000), Some(6_000));
}

#[test]
fn end_to_end_scenario() {
    // Ingest (Manifold, "m1", 0.50, t0) then (Manifold, "m1", 0.80, t0+1h);
    // the top candidate is the hour window, +30 points, publishable at
    // min_silence 0; a second run with nothing new stays silent.
    let mut m = Model::new();
    let t0 = 1_700_000_000;
    let batch0 = vec![MarketStatus {
        platform: Platform::Manifold,
        id: mid("m1"),
        prob: 5_000,
        url: "https://example.test/m1".to_string(),
        title: "Will it happen?".to_string(),
    }];
    m.ingest(batch0, t0);
    let batch1 = vec![MarketStatus {
        platform: Platform::Manifold,
        id: mid("m1"),
        prob: 8_000,
        url: "https://example.test/m1".to_string(),
        title: "Will it happen?".to_string(),
    }];
    m.ingest(batch1, t0 + 3_600);
    let now = t0 + 3_600;
    let c = m.decide_publication(now, 0).expect("first run publishes");
    assert_eq!(c.duration, DiffDuration::Hour);
    assert_eq!(c.p_before, 5_000);
    assert_eq!(c.p_after, 8_000);
    assert!(c.p_after - c.p_before > 2_000);
    assert_eq!(c.title, "Will it happen?");
    assert_eq!(c.url, "https://example.test/m1");
    m.log_publication(&c, now);
    assert!(m.decide_publication(now, 0).is_none());
}

#[test]
fn ingest_filters_invalid_probabilities() {
    let mut m = Model::new();
    let t0 = 1_000_000;
    let batch = vec![
        MarketStatus {
            platform: Platform::Manifold,
            id: mid("bad_low"),
            prob: -100,
            url: "u".to_string(),
            title: "t".to_string(),
        },
        MarketStatus {
            platform: Platform::Manifold,
            id: mid("good"),
            prob: 10_000,
            url: "u".to_string(),
            title: "t".to_string(),
        },
        MarketStatus {
            platform: Platform::Manifold,
            id: mid("bad_high"),
            prob: 10_050,
            url: "u".to_string(),
            title: "t".to_string(),
        },
    ];
    m.ingest(batch, t0);
    assert!(m.latest(Platform::Manifold, &mid("bad_low")).is_none());
    assert!(m.latest(Platform::Manifold, &mid("bad_high")).is_none());
    assert_eq!(m.latest(Platform::Manifold, &mid("good")).unwrap().prob, 10_000);
}

#[test]
fn retention_sweep_drops_only_old_rows() {
    let mut m = Model::new();
    let id = mid("m1");
    store(&mut m, 1_000, &id, 1_000);
    store(&mut m, 2_000, &id, 2_000);
    m.retire_older_than(1_500);
    let o = m.latest(Platform::Manifold, &id).expect("newer row kept");
    assert_eq!(o.time, 2_000);
    m.retire_older_than(5_000);
    assert!(m.latest(Platform::Manifold, &id).is_none());
}

#[test]
fn details_default_placeholders() {
    let m = Model::new();
    let (url, title) = m.get_details(Platform::Manifold, &mid("missing"));
    assert_eq!(url, "?");
    assert_eq!(title, "??");
}

#[test]
fn details_last_write_wins() {
    let mut m = Model::new();
    let id = mid("m1");
    m.update_prob(
        1_000,
        Platform::Manifold,
        id.duplicate(),
        5_000,
        "first-url".to_string(),
        "first-title".to_string(),
    );
    m.update_prob(
        2_000,
        Platform::Manifold,
        id.duplicate(),
        6_000,
        "second-url".to_string(),
        "second-title".to_string(),
    );
    let (url, title) = m.get_details(Platform::Manifold, &id);
    assert_eq!(url, "second-url");
    assert_eq!(title, "second-title");
}

#[test]
fn current_time_is_in_range() {
    let t = marketwise::model::current_unix_time();
    assert!(0 <= t && t <= MAX_TS);
    // A sane clock reads well after the epoch.
    assert!(t > 1_500_000_000);
}
