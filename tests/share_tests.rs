use resonant::counter::parse_interaction_count;
use resonant::family::FractalFamily;
use resonant::messages::{age_cutoff, messages_to_keep, resonance_window_open, MessageStamp};
use resonant::share::{CompactFractal, ShareError, ShareToken};

#[test]
fn compact_record_from_snapshot() {
    let c = CompactFractal::new(42, "KaleidoIFS", 350, 12);
    assert_eq!(c, CompactFractal { seed: 42, fractal_type: 2, complexity: 350, interactions: 12 });
    assert_eq!(c.family(), FractalFamily::KaleidoIFS);
}

#[test]
fn compact_record_unknown_tag_and_saturated_count() {
    let c = CompactFractal::new(7, "Current", 0, 1000);
    assert_eq!(c.fractal_type, 0);
    assert_eq!(c.interactions, 255);
    assert_eq!(c.family(), FractalFamily::Mandelbulb);
    assert_eq!(CompactFractal::new(7, "Julia4D", 0, 255).interactions, 255);
    assert_eq!(CompactFractal::new(7, "Julia4D", 0, 254).interactions, 254);
    assert_eq!(CompactFractal::new(7, "Julia4D", 0, 254).fractal_type, 1);
}

#[test]
fn compact_record_unknown_id_reads_as_mandelbulb() {
    let c = CompactFractal { seed: 1, fractal_type: 9, complexity: 0, interactions: 0 };
    assert_eq!(c.family(), FractalFamily::Mandelbulb);
}

#[test]
fn token_expiry_and_validation() {
    let t = ShareToken::new(99, "user_1".to_string(), 1_000, 2);
    assert_eq!(t.expires, 1_000 + 2 * 3_600_000);
    assert_eq!(t.creator, "user_1");
    assert_eq!(t.validate(1_000), Ok(99));
    assert_eq!(t.validate(7_201_000), Ok(99));
    assert_eq!(t.validate(7_201_001), Err(ShareError::Expired));
}

#[test]
fn token_of_zero_hours() {
    let t = ShareToken::new(5, String::new(), 50, 0);
    assert_eq!(t.expires, 50);
    assert_eq!(t.validate(51), Err(ShareError::Expired));
}

fn stamp(sender: &str, timestamp: u64) -> MessageStamp {
    MessageStamp { sender_id: sender.to_string(), timestamp }
}

#[test]
fn resonance_needs_two_recent_senders() {
    let now = 1_000_000;
    assert!(!resonance_window_open(&vec![], now));
    assert!(!resonance_window_open(&vec![stamp("a", now), stamp("a", now - 10)], now));
    assert!(resonance_window_open(&vec![stamp("a", now), stamp("b", now - 10)], now));
    // The second sender's message is outside the five-minute window.
    assert!(!resonance_window_open(&vec![stamp("a", now), stamp("b", now - 300_000)], now));
    assert!(resonance_window_open(&vec![stamp("a", now), stamp("b", now - 299_999)], now));
    // A message from the future is not recent.
    assert!(!resonance_window_open(&vec![stamp("a", now), stamp("b", now + 1)], now));
    assert!(resonance_window_open(&vec![stamp("c", 0), stamp("a", now), stamp("a", now), stamp("b", now)], now));
}

#[test]
fn old_messages_cleared() {
    let now = 10 * 3_600_000;
    assert_eq!(age_cutoff(now, 2), 8 * 3_600_000);
    assert_eq!(age_cutoff(5, 1), 0);
    let keep = messages_to_keep(&vec![8 * 3_600_000, 8 * 3_600_000 + 1, now, 0], now, 2);
    assert_eq!(keep, vec![false, true, true, false]);
    assert_eq!(messages_to_keep(&vec![], now, 2), Vec::<bool>::new());
}

#[test]
fn interaction_count_parsing() {
    assert_eq!(parse_interaction_count("17"), 17);
    assert_eq!(parse_interaction_count("+17"), 17);
    assert_eq!(parse_interaction_count("0"), 0);
    assert_eq!(parse_interaction_count("4294967295"), 4294967295);
    assert_eq!(parse_interaction_count("4294967296"), 0);
    assert_eq!(parse_interaction_count("99999999999"), 0);
    assert_eq!(parse_interaction_count(""), 0);
    assert_eq!(parse_interaction_count("+"), 0);
    assert_eq!(parse_interaction_count("-1"), 0);
    assert_eq!(parse_interaction_count("12a"), 0);
    assert_eq!(parse_interaction_count(" 1"), 0);
    assert_eq!(parse_interaction_count("007"), 7);
}
