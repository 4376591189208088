use monkey_guesser::candidate::{Score, TextElement, RATE_SCALE};
use rand::rngs::StdRng;
use rand::SeedableRng;

fn chars(s: &str) -> Vec<char> {
    s.chars().collect()
}

fn alphanumeric(v: &[char]) -> bool {
    v.iter().all(|c| c.is_ascii_alphanumeric())
}

#[test]
fn defined_value_is_kept() {
    let mut rng = StdRng::seed_from_u64(1);
    let e = TextElement::new(chars("Monkey"), chars("Donkey"), &mut rng);
    assert_eq!(e.value(), &chars("Donkey"));
    assert_eq!(e.target(), &chars("Monkey"));
}

#[test]
fn empty_value_is_randomized_to_target_length() {
    let mut rng = StdRng::seed_from_u64(2);
    let e = TextElement::new(chars("!!!!!!!!"), Vec::new(), &mut rng);
    assert_eq!(e.value().len(), 8);
    assert!(alphanumeric(e.value()));
    assert_ne!(e.value(), &chars("!!!!!!!!"));
}

#[test]
fn random_value_is_alphanumeric_and_as_long_as_target() {
    let mut rng = StdRng::seed_from_u64(3);
    let v = TextElement::generate_random_value(&chars("#########################"), &mut rng);
    assert_eq!(v.len(), 25);
    assert!(alphanumeric(&v));
}

#[test]
fn score_counts_matching_positions() {
    let mut rng = StdRng::seed_from_u64(4);
    let e = TextElement::new(chars("ABCD"), chars("ABxD"), &mut rng);
    assert_eq!(e.get_score(), Score { matched: 3, total: 4 });
    assert!(!e.get_score().is_perfect());
}

#[test]
fn score_is_perfect_exactly_on_target() {
    let mut rng = StdRng::seed_from_u64(5);
    let e = TextElement::new(chars("AB"), chars("AB"), &mut rng);
    assert_eq!(e.get_score(), Score { matched: 2, total: 2 });
    assert!(e.get_score().is_perfect());
    let f = TextElement::new(chars("AB"), chars("BA"), &mut rng);
    assert_eq!(f.get_score(), Score { matched: 0, total: 2 });
}

#[test]
fn score_bounds_on_random_candidates() {
    let mut rng = StdRng::seed_from_u64(6);
    for _ in 0..200 {
        let e = TextElement::new(chars("Ab3"), Vec::new(), &mut rng);
        let s = e.get_score();
        assert!(s.matched <= s.total);
        assert_eq!(s.total, 3);
        assert_eq!(s.is_perfect(), e.value() == &chars("Ab3"));
    }
}

#[test]
fn score_is_the_same_on_repeated_calls() {
    let mut rng = StdRng::seed_from_u64(7);
    let e = TextElement::new(chars("Infinite"), chars("Infinity"), &mut rng);
    let first = e.get_score();
    assert_eq!(first, Score { matched: 7, total: 8 });
    for _ in 0..10 {
        assert_eq!(e.get_score(), first);
    }
}

#[test]
fn mutate_with_takes_fresh_characters_below_the_rate() {
    let mut rng = StdRng::seed_from_u64(8);
    let mut e = TextElement::new(chars("abcd"), chars("abcd"), &mut rng);
    e.mutate_with(500, &vec![0, 499, 500, 999_999], &chars("WXYZ"));
    assert_eq!(e.value(), &chars("WXcd"));
    assert_eq!(e.target(), &chars("abcd"));
}

#[test]
fn mutate_with_rate_zero_changes_nothing() {
    let mut rng = StdRng::seed_from_u64(9);
    let mut e = TextElement::new(chars("abc"), chars("abc"), &mut rng);
    e.mutate_with(0, &vec![0, 0, 0], &chars("XYZ"));
    assert_eq!(e.value(), &chars("abc"));
}

#[test]
fn mutate_rate_zero_is_identity() {
    let mut rng = StdRng::seed_from_u64(10);
    let mut e = TextElement::new(chars("Monkey"), chars("M#nk!y"), &mut rng);
    for _ in 0..50 {
        e.mutate(0, &mut rng);
        assert_eq!(e.value(), &chars("M#nk!y"));
    }
}

#[test]
fn mutate_preserves_length() {
    let mut rng = StdRng::seed_from_u64(11);
    for rate in [0, 1, 10_000, 500_000, RATE_SCALE] {
        let mut e = TextElement::new(chars("Monkey"), chars("abcdef"), &mut rng);
        e.mutate(rate, &mut rng);
        assert_eq!(e.value().len(), 6);
        assert_eq!(e.target(), &chars("Monkey"));
    }
}

#[test]
fn mutate_full_rate_redraws_every_position() {
    let mut rng = StdRng::seed_from_u64(12);
    let mut counts = [0usize; 128];
    let trials = 3000;
    for _ in 0..trials {
        let mut e = TextElement::new(chars("aaaa"), chars("####"), &mut rng);
        e.mutate(RATE_SCALE, &mut rng);
        assert_eq!(e.value().len(), 4);
        assert!(alphanumeric(e.value()));
        for c in e.value() {
            counts[*c as usize] += 1;
        }
    }
    let drawn: Vec<usize> = counts.iter().copied().filter(|n| *n > 0).collect();
    assert_eq!(drawn.len(), 62);
    let expected = (4 * trials) as f64 / 62.0;
    for n in drawn {
        assert!((n as f64) > expected * 0.5 && (n as f64) < expected * 1.5);
    }
}

#[test]
fn mutate_small_rate_keeps_most_characters() {
    let mut rng = StdRng::seed_from_u64(13);
    let original = chars(&"#".repeat(1000));
    let mut e = TextElement::new(original.clone(), original.clone(), &mut rng);
    e.mutate(100_000, &mut rng);
    let changed = e.value().iter().filter(|c| **c != '#').count();
    assert!(changed > 50 && changed < 150);
}

#[test]
fn from_value_keeps_target_and_value() {
    let e = TextElement::from_value(chars("Ape"), chars("Apx"));
    assert_eq!(e.target(), &chars("Ape"));
    assert_eq!(e.value(), &chars("Apx"));
    assert_eq!(e.get_score(), Score { matched: 2, total: 3 });
}
