use watch_and_run::history::FingerprintHistory;

#[test]
fn first_observation_is_novel() {
    let mut h = FingerprintHistory::new();
    assert!(h.observe("/w/a", "h1".to_string()));
    assert!(h.observe("/w/b", "h1".to_string()));
}

#[test]
fn oscillation_is_absorbed() {
    let mut h = FingerprintHistory::new();
    assert!(h.observe("/w/a", "h1".to_string()));
    assert!(h.observe("/w/a", "h2".to_string()));
    assert!(!h.observe("/w/a", "h1".to_string()));
}

#[test]
fn third_distinct_fingerprint_is_novel() {
    let mut h = FingerprintHistory::new();
    assert!(h.observe("/w/a", "h1".to_string()));
    assert!(h.observe("/w/a", "h2".to_string()));
    assert!(h.observe("/w/a", "h3".to_string()));
    assert!(!h.observe("/w/a", "h2".to_string()));
}

#[test]
fn repeated_fingerprint_is_not_novel() {
    let mut h = FingerprintHistory::new();
    assert!(h.observe("/w/a", "h1".to_string()));
    assert!(!h.observe("/w/a", "h1".to_string()));
    assert!(!h.observe("/w/a", "h1".to_string()));
}

#[test]
fn repeat_is_recorded_and_evicts_the_older() {
    let mut h = FingerprintHistory::new();
    assert!(h.observe("/w/a", "h1".to_string()));
    assert!(h.observe("/w/a", "h2".to_string()));
    assert!(!h.observe("/w/a", "h2".to_string()));
    assert!(h.observe("/w/a", "h1".to_string()));
}
