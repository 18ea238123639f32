use syllable::Counter;

#[test]
fn can_initialize() {
    let _ = Counter::new();
}

#[test]
fn can_count() {
    let test_cases: &[(&str, usize)] = &[
        ("dog!!!!!", 1),
        ("d0g", 0),
        ("4dog", 0),
        ("dog123", 0),
        ("", 0),
        (" ", 0),
        ("because", 2),
        ("woman", 2),
        ("international", 5),
        ("ostentatious", 4),
        ("Norway", 2),
        ("norway", 2),
        ("Ohio", 3),
        ("ohio", 3),
    ];

    let mut counter = Counter::new();
    for &(word, expected) in test_cases {
        let actual = counter.count(word);
        assert_eq!(
            actual, expected,
            "{} (actual: {}; expected: {})",
            word, actual, expected
        );
    }
}

#[test]
fn punctuation_is_trimmed_from_both_ends() {
    let mut counter = Counter::new();
    let plain = counter.count("dog");
    assert_eq!(counter.count("dog!!!!!"), plain);
    assert_eq!(counter.count("--dog--"), plain);
    assert_eq!(counter.count("((dog))?!"), plain);
}

#[test]
fn interior_punctuation_is_rejected() {
    let mut counter = Counter::new();
    assert_eq!(counter.count("don't"), 0);
    assert_eq!(counter.count("dog-house"), 0);
}

#[test]
fn all_punctuation_or_blank_is_rejected() {
    let mut counter = Counter::new();
    assert_eq!(counter.count("!!!"), 0);
    assert_eq!(counter.count("?!?!"), 0);
    assert_eq!(counter.count("   "), 0);
}

#[test]
fn non_ascii_is_rejected() {
    let mut counter = Counter::new();
    assert_eq!(counter.count("na\u{ef}ve"), 0);
    assert_eq!(counter.count("caf\u{e9}"), 0);
}

#[test]
fn case_is_ignored() {
    let mut counter = Counter::new();
    assert_eq!(counter.count("DOG"), counter.count("dog"));
    assert_eq!(counter.count("OHIO"), 3);
    assert_eq!(counter.count("Business"), 2);
    assert_eq!(counter.count("BeCaUsE"), 2);
}

#[test]
fn valid_words_count_at_least_one() {
    let mut counter = Counter::new();
    for word in ["z", "rhythm", "why", "tsk", "a"] {
        assert!(counter.count(word) >= 1, "{}", word);
    }
}

#[test]
fn trailing_le_rule() {
    let mut counter = Counter::new();
    assert_eq!(counter.count("table"), 2);
    assert_eq!(counter.count("little"), 2);
    assert_eq!(counter.count("apple"), 2);
    // the `le` follows a vowel, so no syllable is restored
    assert_eq!(counter.count("whale"), 1);
    assert_eq!(counter.count("ale"), 1);
    // too short for the rule
    assert_eq!(counter.count("le"), 1);
}

#[test]
fn silent_e_rule() {
    let mut counter = Counter::new();
    assert_eq!(counter.count("make"), 1);
    assert_eq!(counter.count("e"), 1);
    assert_eq!(counter.count("ee"), 1);
}

#[test]
fn dictionary_overrides_heuristic() {
    // the heuristic alone would answer 1 for each of these
    let mut counter = Counter::new();
    assert_eq!(counter.count("being"), 2);
    assert_eq!(counter.count("quiet"), 2);
    assert_eq!(counter.count("poem"), 2);
    assert_eq!(counter.count("lion"), 2);
    assert_eq!(counter.count("Ohio!!"), 3);
}

#[test]
fn repeated_queries_are_deterministic() {
    let mut counter = Counter::new();
    let first = counter.count("ostentatious");
    assert_eq!(counter.count("ostentatious"), first);
    assert_eq!(counter.count("ostentatious"), first);

    let mut fresh = Counter::new();
    assert_eq!(fresh.count("ostentatious"), first);

    let mut defaulted = Counter::default();
    assert_eq!(defaulted.count("ostentatious"), first);
}

#[test]
fn default_matches_new() {
    let mut a = Counter::new();
    let mut b = Counter::default();
    for word in ["ohio", "because", "table", "d0g", ""] {
        assert_eq!(a.count(word), b.count(word));
    }
}
