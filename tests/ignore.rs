use watch_and_run::ignore::{load_ignore_patterns, should_ignore};

fn lines(items: &[&str]) -> Option<Vec<String>> {
    Some(items.iter().map(|s| s.to_string()).collect())
}

#[test]
fn missing_file_yields_only_the_vcs_rules() {
    let rules = load_ignore_patterns(None);
    assert_eq!(rules.len(), 2);
    assert!(should_ignore(".git", &rules));
    assert!(should_ignore(".git/config", &rules));
    assert!(should_ignore(".git/objects/ab/cd", &rules));
    assert!(!should_ignore("src/main.rs", &rules));
}

#[test]
fn directory_entry_covers_everything_beneath() {
    let rules = load_ignore_patterns(lines(&["build/"]));
    assert_eq!(rules.len(), 4);
    assert!(should_ignore("build/x", &rules));
    assert!(should_ignore("build/x/y", &rules));
    assert!(!should_ignore("builde", &rules));
    assert!(!should_ignore("builder/x", &rules));
}

#[test]
fn entry_without_dot_is_a_directory() {
    let rules = load_ignore_patterns(lines(&["target"]));
    assert!(should_ignore("target", &rules));
    assert!(should_ignore("target/debug/app", &rules));
    assert!(!should_ignore("targets", &rules));
}

#[test]
fn blank_and_comment_lines_are_skipped() {
    let rules = load_ignore_patterns(lines(&["", "   ", "# build", "  *.log  "]));
    assert_eq!(rules.len(), 3);
    assert!(should_ignore("app.log", &rules));
    assert!(!should_ignore("build/x", &rules));
}

#[test]
fn malformed_pattern_is_skipped() {
    let rules = load_ignore_patterns(lines(&["a***b.txt", "[x.txt", "*.tmp"]));
    assert_eq!(rules.len(), 3);
    assert!(should_ignore("x.tmp", &rules));
}

#[test]
fn glob_star_crosses_separators() {
    let rules = load_ignore_patterns(lines(&["*.log"]));
    assert!(should_ignore("app.log", &rules));
    assert!(should_ignore("logs/app.log", &rules));
    assert!(!should_ignore("app.txt", &rules));
}

#[test]
fn backslashes_are_normalised() {
    let rules = load_ignore_patterns(lines(&["build/"]));
    assert!(should_ignore("build\\out.bin", &rules));
    assert!(should_ignore(".git\\HEAD", &rules));
}

#[test]
fn vcs_directory_itself_is_ignored_with_any_file() {
    let rules = load_ignore_patterns(lines(&["*.log"]));
    assert!(should_ignore(".git", &rules));
    assert!(should_ignore(".git/HEAD", &rules));
    assert!(!should_ignore(".gitignore", &rules));
    assert!(!should_ignore(".github/workflows/ci.yml", &rules));
}
