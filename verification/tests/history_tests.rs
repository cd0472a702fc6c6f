use wallpaperd::history::History;

fn s(x: &str) -> String {
    x.to_string()
}

#[test]
fn starts_with_seed_only() {
    let h = History::new(s("a"), 25);
    assert_eq!(h.current(), &s("a"));
    assert_eq!(h.shown_len(), 1);
    assert!(!h.has_next());
    assert!(!h.has_previous());
}

#[test]
fn push_then_previous_restores_current() {
    let mut h = History::new(s("a"), 25);
    h.push_back(s("b"));
    assert_eq!(h.current(), &s("b"));
    h.go_previous();
    assert_eq!(h.current(), &s("a"));
}

#[test]
fn previous_on_single_entry_is_noop() {
    let mut h = History::new(s("a"), 25);
    assert!(!h.has_previous());
    h.go_previous();
    assert_eq!(h.current(), &s("a"));
    assert_eq!(h.shown_len(), 1);
    assert!(!h.has_next());
}

#[test]
fn redo_consumed_before_anything_else() {
    let mut h = History::new(s("a"), 25);
    h.push_back(s("b"));
    h.go_previous();
    assert!(h.has_next());
    h.go_next();
    assert_eq!(h.current(), &s("b"));
    assert!(!h.has_next());
}

#[test]
fn capacity_evicts_exactly_the_oldest() {
    let mut h = History::new(s("a"), 2);
    h.push_back(s("b"));
    assert_eq!(h.shown_len(), 2);
    h.push_back(s("c"));
    assert_eq!(h.shown_len(), 2);
    assert_eq!(h.current(), &s("c"));
    h.go_previous();
    // "a" was evicted, so "b" is the oldest retained entry.
    assert_eq!(h.current(), &s("b"));
    assert!(!h.has_previous());
}

#[test]
fn length_never_exceeds_capacity() {
    let mut h = History::new(s("p0"), 3);
    for i in 1..10 {
        h.push_back(format!("p{}", i));
        assert!(h.shown_len() <= 3);
    }
    assert_eq!(h.current(), &s("p9"));
}

#[test]
fn pop_tail_restores_prior_entry() {
    let mut h = History::new(s("a"), 25);
    h.push_back(s("b"));
    h.push_back(s("c"));
    h.pop_tail();
    assert_eq!(h.current(), &s("b"));
    assert_eq!(h.shown_len(), 2);
}

#[test]
fn nth_from_tail_reads_backwards() {
    let mut h = History::new(s("a"), 25);
    h.push_back(s("b"));
    h.push_back(s("c"));
    assert_eq!(h.nth_from_tail(0), &s("c"));
    assert_eq!(h.nth_from_tail(1), &s("b"));
    assert_eq!(h.nth_from_tail(2), &s("a"));
}
