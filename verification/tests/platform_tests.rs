use marketwise::model::MarketId;
use marketwise::platforms::{allowed_title, Manifold, Metaculus, Platform, Polymarket};

#[test]
fn allowed_title_accepts_ordinary_questions() {
    assert!(allowed_title(&"Will it rain in Berlin tomorrow?".to_string()));
    assert!(allowed_title(&"Will the bill pass before March?".to_string()));
    assert!(allowed_title(&"".to_string()));
}

#[test]
fn allowed_title_blocks_phrases() {
    assert!(!allowed_title(&"Who will win? [Add responses]".to_string()));
    assert!(!allowed_title(&"Best meme of the year [add your own]".to_string()));
    assert!(!allowed_title(&"Who wins the semifinals?".to_string()));
    assert!(!allowed_title(&"Will they make the playoffs?".to_string()));
    assert!(!allowed_title(&"Champions League winner 2030".to_string()));
    assert!(!allowed_title(&"Good tweet or bad tweet: today's post".to_string()));
}

#[test]
fn allowed_title_is_case_insensitive() {
    // The check runs on the lowercased title, so capitalized phrases are
    // caught too.
    assert!(!allowed_title(&"SEMIFINALS preview".to_string()));
    assert!(!allowed_title(&"PlayOffs race".to_string()));
    assert!(allowed_title(&"Semi final".to_string()));
}

#[test]
fn allowed_title_blocks_sports_emoji() {
    assert!(!allowed_title(&"\u{1F3C0} Lakers vs Celtics".to_string()));
    assert!(!allowed_title(&"Game seven \u{26BE} tonight".to_string()));
    assert!(!allowed_title(&"\u{1F3D2} stanley cup".to_string()));
    assert!(allowed_title(&"Will hockey be popular in 2040?".to_string()));
}

#[test]
fn platform_names() {
    assert_eq!(Platform::Manifold.name(), "Manifold");
    assert_eq!(Platform::Metaculus.name(), "Metaculus");
    assert_eq!(Platform::Polymarket.name(), "Polymarket");
    assert_eq!(Platform::_Kalshi.name(), "???");
}

#[test]
fn adapter_handles() {
    let m = Manifold::new(100);
    assert_eq!(m.fetch_limit, 100);
    assert_eq!(m.id(), Platform::Manifold);
    let q = Metaculus::new(50, "token".to_string());
    assert_eq!(q.fetch_limit, 50);
    assert_eq!(q.id(), Platform::Metaculus);
    let p = Polymarket::new(25);
    assert_eq!(p.fetch_limit, 25);
    assert_eq!(p.id(), Platform::Polymarket);
}

#[test]
fn market_id_equality_is_by_content() {
    let a = MarketId { base: "m1".to_string(), sub: None };
    let b = MarketId { base: "m1".to_string(), sub: None };
    let c = MarketId { base: "m1".to_string(), sub: Some("2".to_string()) };
    let d = MarketId { base: "m2".to_string(), sub: None };
    assert!(a == b);
    assert!(a != c);
    assert!(a != d);
    assert!(c == c.duplicate());
}
