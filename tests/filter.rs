use watch_and_run::filter::{relative_path, BatchScan, ChangeFilter, PumpAction, Verdict};
use watch_and_run::ignore::load_ignore_patterns;

fn filter_with(entries: &[&str]) -> ChangeFilter {
    let lines: Vec<String> = entries.iter().map(|s| s.to_string()).collect();
    ChangeFilter::new("/w".to_string(), load_ignore_patterns(Some(lines)))
}

fn batch(items: &[&str]) -> Vec<String> {
    items.iter().map(|s| s.to_string()).collect()
}

/// Runs one batch with the given contents, reading content only where asked;
/// returns the dispatched indices and the indices that were read.
fn run_batch(
    f: &mut ChangeFilter,
    paths: &Vec<String>,
    contents: &[Option<&[u8]>],
) -> (Vec<usize>, Vec<usize>) {
    let mut dispatched = Vec::new();
    let mut read = Vec::new();
    let mut scan = BatchScan::new();
    let mut action = f.next_action(paths, &mut scan);
    loop {
        match action {
            PumpAction::ReportOutside(_) => action = f.next_action(paths, &mut scan),
            PumpAction::Inspect(i) => {
                read.push(i);
                action = f.inspected(paths, &mut scan, contents[i]);
            }
            PumpAction::Dispatch(i) => {
                dispatched.push(i);
                action = f.next_action(paths, &mut scan);
            }
            PumpAction::Finish => break,
        }
    }
    (dispatched, read)
}

#[test]
fn relative_paths() {
    assert_eq!(relative_path("/w/a/b", "/w"), Some("a/b".to_string()));
    assert_eq!(relative_path("/w", "/w"), Some("".to_string()));
    assert_eq!(relative_path("/wx/a", "/w"), None);
    assert_eq!(relative_path("/v/a", "/w"), None);
    assert_eq!(relative_path("/a", "/"), Some("a".to_string()));
    assert_eq!(relative_path("C:\\w\\a\\b", "C:\\w"), Some("a\\b".to_string()));
    assert_eq!(relative_path("C:\\w\\a", "C:\\"), Some("w\\a".to_string()));
    assert_eq!(relative_path("C:\\wx", "C:\\w"), None);
}

#[test]
fn classify_paths() {
    let f = filter_with(&["build/"]);
    assert_eq!(f.classify("/elsewhere/x"), Verdict::OutsideRoot);
    assert_eq!(f.classify("/w/build/out.bin"), Verdict::Ignored);
    assert_eq!(f.classify("/w/.git/index"), Verdict::Ignored);
    assert_eq!(f.classify("/w/.git"), Verdict::Ignored);
    assert_eq!(f.classify("/w/src/main.x"), Verdict::Inspect);
}

#[test]
fn unreadable_content_is_dropped_without_history() {
    let mut f = filter_with(&[]);
    assert!(!f.judge("/w/a", None));
    assert!(f.judge("/w/a", Some(b"one")));
    assert!(!f.judge("/w/a", None));
    assert!(!f.judge("/w/a", Some(b"one")));
}

#[test]
fn ignored_paths_are_never_read() {
    let mut f = filter_with(&["build/", "*.log"]);
    let paths = batch(&["/w/build/a", "/w/x.log", "/w/.git/HEAD"]);
    let (dispatched, read) = run_batch(&mut f, &paths, &[Some(b"a"), Some(b"b"), Some(b"c")]);
    assert!(dispatched.is_empty());
    assert!(read.is_empty());
}

#[test]
fn only_the_second_of_three_dispatches() {
    let mut f = filter_with(&[]);
    let paths = batch(&["/w/a", "/w/b", "/w/c"]);
    assert!(f.judge("/w/a", Some(b"A")));
    assert!(f.judge("/w/c", Some(b"C")));
    let (dispatched, read) = run_batch(&mut f, &paths, &[Some(b"A"), Some(b"B"), Some(b"C")]);
    assert_eq!(dispatched, vec![1]);
    assert_eq!(read, vec![0, 1]);
}

#[test]
fn first_change_ends_the_batch() {
    let mut f = filter_with(&[]);
    let paths = batch(&["/w/a", "/w/b"]);
    let (dispatched, read) = run_batch(&mut f, &paths, &[Some(b"A"), Some(b"B")]);
    assert_eq!(dispatched, vec![0]);
    assert_eq!(read, vec![0]);
}

#[test]
fn outside_paths_are_reported_and_skipped() {
    let mut f = filter_with(&[]);
    let paths = batch(&["/elsewhere/a", "/w/b"]);
    let mut scan = BatchScan::new();
    assert_eq!(f.next_action(&paths, &mut scan), PumpAction::ReportOutside(0));
    assert_eq!(f.next_action(&paths, &mut scan), PumpAction::Inspect(1));
    assert_eq!(f.inspected(&paths, &mut scan, Some(b"B")), PumpAction::Dispatch(1));
    assert_eq!(f.next_action(&paths, &mut scan), PumpAction::Finish);
}

#[test]
fn ignore_file_scenario_only_source_dispatches() {
    let mut f = filter_with(&["build/", "*.log"]);
    let contents: [Option<&[u8]>; 3] = [Some(b"bin"), Some(b"log"), Some(b"src")];
    let paths = batch(&["/w/build/out.bin", "/w/app.log", "/w/src/main.x"]);
    let (dispatched, read) = run_batch(&mut f, &paths, &contents);
    assert_eq!(dispatched, vec![2]);
    assert_eq!(read, vec![2]);
    let only_build = batch(&["/w/build/out.bin"]);
    assert!(run_batch(&mut f, &only_build, &[Some(b"bin2")]).0.is_empty());
    let only_log = batch(&["/w/app.log"]);
    assert!(run_batch(&mut f, &only_log, &[Some(b"log2")]).0.is_empty());
}

#[test]
fn truncate_and_restore_dispatches_at_most_once() {
    let mut f = filter_with(&[]);
    let paths = batch(&["/w/doc.txt"]);
    assert_eq!(run_batch(&mut f, &paths, &[Some(b"original")]).0, vec![0]);
    let truncated = run_batch(&mut f, &paths, &[Some(b"")]).0.len();
    let restored = run_batch(&mut f, &paths, &[Some(b"original")]).0.len();
    assert!(truncated + restored <= 1);
}

#[test]
fn truncate_and_restore_in_one_batch_dispatches_once() {
    let mut f = filter_with(&[]);
    let paths = batch(&["/w/doc.txt"]);
    assert_eq!(run_batch(&mut f, &paths, &[Some(b"original")]).0, vec![0]);
    let both = batch(&["/w/doc.txt", "/w/doc.txt"]);
    let (dispatched, _) = run_batch(&mut f, &both, &[Some(b""), Some(b"original")]);
    assert_eq!(dispatched.len(), 1);
}
