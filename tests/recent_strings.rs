use watch_and_run::utils::recent_strings::RecentStrings;

#[test]
fn fresh_buffer_holds_only_empty_strings() {
    let r = RecentStrings::default();
    assert!(r.contains(""));
    assert!(!r.contains("a"));
}

#[test]
fn add_keeps_the_two_most_recent() {
    let mut r = RecentStrings::new();
    r.add("a".to_string());
    assert!(r.contains("a"));
    r.add("b".to_string());
    assert!(r.contains("a"));
    assert!(r.contains("b"));
    r.add("c".to_string());
    assert!(!r.contains("a"));
    assert!(r.contains("b"));
    assert!(r.contains("c"));
}
