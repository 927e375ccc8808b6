//! The change filter: what to do with each path of a batch of notifications,
//! and the scan over a batch that stops at the first real change.
use vstd::prelude::*;
use crate::fingerprint::{calculate_sha256, fingerprint_of};
use crate::history::{FingerprintHistory, is_novel, observed};
use crate::ignore::{IgnoreRules, ignored_by, should_ignore};
use crate::text::{chars_of, string_of};
use crate::utils::recent_strings::RecentView;

verus! {

/// A path separator: `/`, or a backslash as Windows writes it.
pub open spec fn is_separator(c: char) -> bool {
    c == '/' || c == '\\'
}

/// `path` relative to `root`: empty for the root itself, the rest after the
/// separator for a path beneath it, `None` for any other path.
pub open spec fn relative_to(path: Seq<char>, root: Seq<char>) -> Option<Seq<char>> {
    if path == root {
        Some(Seq::empty())
    } else if root.len() > 0 && is_separator(root.last()) && path.len() > root.len() && path.subrange(
        0,
        root.len() as int,
    ) == root {
        Some(path.subrange(root.len() as int, path.len() as int))
    } else if path.len() > root.len() && path.subrange(0, root.len() as int) == root
        && is_separator(path[root.len() as int]) {
        Some(path.subrange(root.len() as int + 1, path.len() as int))
    } else {
        None
    }
}

/// The view of an optional string.
pub open spec fn opt_view(s: Option<String>) -> Option<Seq<char>> {
    match s {
        Some(t) => Some(t@),
        None => None,
    }
}

/// Whether `v` begins with `prefix`.
fn starts_with_chars(v: &Vec<char>, prefix: &Vec<char>) -> (r: bool)
    ensures
        r == (v@.len() >= prefix@.len() && v@.subrange(0, prefix@.len() as int) == prefix@),
{
    if v.len() < prefix.len() {
        return false;
    }
    let mut i: usize = 0;
    while i < prefix.len()
        invariant
            i <= prefix@.len() <= v@.len(),
            forall|j: int| 0 <= j < i ==> v@[j] == prefix@[j],
        decreases prefix.len() - i,
    {
        if v[i] != prefix[i] {
            proof {
                assert(v@.subrange(0, prefix@.len() as int)[i as int] != prefix@[i as int]);
            }
            return false;
        }
        i += 1;
    }
    proof {
        assert(v@.subrange(0, prefix@.len() as int) =~= prefix@);
    }
    true
}

/// The characters of `v` from `start` on, as a string.
fn tail_string(v: &Vec<char>, start: usize) -> (r: String)
    requires
        start <= v@.len(),
    ensures
        r@ == v@.subrange(start as int, v@.len() as int),
{
    let mut out: Vec<char> = Vec::new();
    let mut k: usize = start;
    while k < v.len()
        invariant
            start <= k <= v@.len(),
            out@ == v@.subrange(start as int, k as int),
        decreases v.len() - k,
    {
        out.push(v[k]);
        k += 1;
        proof {
            assert(out@ =~= v@.subrange(start as int, k as int));
        }
    }
    string_of(&out)
}

/// `path` relative to `root`, or `None` when it does not lie under it.
pub fn relative_path(path: &str, root: &str) -> (r: Option<String>)
    ensures
        opt_view(r) == relative_to(path@, root@),
{
    let p = chars_of(path);
    let w = chars_of(root);
    let under = starts_with_chars(&p, &w);
    if under && p.len() == w.len() {
        proof {
            assert(p@ =~= w@);
        }
        return Some(string_of(&Vec::new()));
    }
    if under && w.len() > 0 && (w[w.len() - 1] == '/' || w[w.len() - 1] == '\\') {
        return Some(tail_string(&p, w.len()));
    }
    if under && (p[w.len()] == '/' || p[w.len()] == '\\') {
        return Some(tail_string(&p, w.len() + 1));
    }
    proof {
        if p@ == w@ {
            assert(p@.subrange(0, w@.len() as int) =~= w@);
        }
    }
    None
}

/// What becomes of a notified path before its content is read.
#[derive(PartialEq, Eq, Structural, Debug, Clone, Copy)]
pub enum Verdict {
    /// It does not lie under the watch root.
    OutsideRoot,
    /// An ignore rule matches it.
    Ignored,
    /// Its content must be fingerprinted.
    Inspect,
}

/// The verdict on `path` for the watch root `root` and the rules `rules`.
pub open spec fn verdict_of(root: Seq<char>, rules: Seq<Seq<char>>, path: Seq<char>) -> Verdict {
    match relative_to(path, root) {
        None => Verdict::OutsideRoot,
        Some(rel) => if ignored_by(rules, rel) {
            Verdict::Ignored
        } else {
            Verdict::Inspect
        },
    }
}

/// The next step of the scan over one batch of notified paths.
#[derive(PartialEq, Eq, Structural, Debug, Clone, Copy)]
pub enum PumpAction {
    /// The path at this index lies outside the watch root: report it.
    ReportOutside(usize),
    /// Read the file at this index and hand its content to `inspected`.
    Inspect(usize),
    /// The path at this index changed: run the command; the batch is done.
    Dispatch(usize),
    /// Nothing more to do for this batch.
    Finish,
}

/// Where the scan over a batch stands: the index of the next path to look at.
pub struct BatchScan {
    next: usize,
}

impl View for BatchScan {
    type V = nat;

    closed spec fn view(&self) -> nat {
        self.next as nat
    }
}

impl BatchScan {
    /// A scan at the start of a batch.
    pub fn new() -> (r: BatchScan)
        ensures
            r@ == 0,
    {
        BatchScan { next: 0 }
    }
}

/// The paths of a batch as character sequences.
pub open spec fn paths_view(paths: Seq<String>) -> Seq<Seq<char>> {
    paths.map_values(|p: String| p@)
}

/// The scan from index `i`: paths that are ignored are passed over; the first
/// other path is reported when it lies outside the root, or else inspected.
/// Gives the action and where the scan then stands.
pub open spec fn scan_from(
    root: Seq<char>,
    rules: Seq<Seq<char>>,
    paths: Seq<Seq<char>>,
    i: nat,
) -> (PumpAction, nat)
    decreases paths.len() - i,
{
    if i >= paths.len() {
        (PumpAction::Finish, paths.len())
    } else {
        match verdict_of(root, rules, paths[i as int]) {
            Verdict::OutsideRoot => (PumpAction::ReportOutside(i as usize), i + 1),
            Verdict::Ignored => scan_from(root, rules, paths, i + 1),
            Verdict::Inspect => (PumpAction::Inspect(i as usize), i),
        }
    }
}

/// The view of content that may have failed to be read.
pub open spec fn content_view(content: Option<&[u8]>) -> Option<Seq<u8>> {
    match content {
        Some(c) => Some(c@),
        None => None,
    }
}

/// Whether content read for `path` is a real change for history `h`: it was
/// read, and its fingerprint is novel.
pub open spec fn is_change(
    h: Map<Seq<char>, RecentView>,
    path: Seq<char>,
    content: Option<Seq<u8>>,
) -> bool {
    match content {
        Some(c) => is_novel(h, path, fingerprint_of(c)),
        None => false,
    }
}

/// The history after content was read, or failed to be read, for `path`.
pub open spec fn after_read(
    h: Map<Seq<char>, RecentView>,
    path: Seq<char>,
    content: Option<Seq<u8>>,
) -> Map<Seq<char>, RecentView> {
    match content {
        Some(c) => observed(h, path, fingerprint_of(c)),
        None => h,
    }
}

/// The change filter and the state it keeps across batches: the watch root,
/// the ignore rules, and the fingerprint history.
pub struct ChangeFilter {
    root: String,
    rules: IgnoreRules,
    history: FingerprintHistory,
}

impl ChangeFilter {
    /// The watch root.
    pub closed spec fn root_view(&self) -> Seq<char> {
        self.root@
    }

    /// The ignore rules.
    pub closed spec fn rules_view(&self) -> Seq<Seq<char>> {
        self.rules@
    }

    /// The fingerprint history.
    pub closed spec fn history_view(&self) -> Map<Seq<char>, RecentView> {
        self.history@
    }

    /// The history is well formed.
    pub closed spec fn wf(&self) -> bool {
        self.history.wf()
    }

    /// A filter for the watch root `root` with the rules `rules`, and no
    /// history yet.
    pub fn new(root: String, rules: IgnoreRules) -> (r: ChangeFilter)
        ensures
            r.wf(),
            r.root_view() == root@,
            r.rules_view() == rules@,
            r.history_view() == Map::<Seq<char>, RecentView>::empty(),
    {
        ChangeFilter { root, rules, history: FingerprintHistory::new() }
    }

    /// The verdict on a notified path, before any content is read.
    pub fn classify(&self, path: &str) -> (r: Verdict)
        ensures
            r == verdict_of(self.root_view(), self.rules_view(), path@),
    {
        match relative_path(path, self.root.as_str()) {
            None => Verdict::OutsideRoot,
            Some(rel) => if should_ignore(rel.as_str(), &self.rules) {
                Verdict::Ignored
            } else {
                Verdict::Inspect
            },
        }
    }

    /// Whether the content read from `path` is a real change: `None`, for a
    /// file that could not be read, is dropped and leaves the history as it
    /// was; content whose fingerprint is novel for the path is kept. The
    /// fingerprint is recorded either way.
    pub fn judge(&mut self, path: &str, content: Option<&[u8]>) -> (keep: bool)
        requires
            old(self).wf(),
        ensures
            final(self).wf(),
            final(self).root_view() == old(self).root_view(),
            final(self).rules_view() == old(self).rules_view(),
            keep == is_change(old(self).history_view(), path@, content_view(content)),
            final(self).history_view() == after_read(
                old(self).history_view(),
                path@,
                content_view(content),
            ),
    {
        match content {
            None => false,
            Some(c) => {
                let fingerprint = calculate_sha256(c);
                self.history.observe(path, fingerprint)
            },
        }
    }

    /// Moves the scan on to the next action: ignored paths are passed over,
    /// and none of them is ever handed out for inspection.
    pub fn next_action(&self, paths: &Vec<String>, scan: &mut BatchScan) -> (r: PumpAction)
        ensures
            (r, final(scan)@) == scan_from(
                self.root_view(),
                self.rules_view(),
                paths_view(paths@),
                old(scan)@,
            ),
            r matches PumpAction::Inspect(i) ==> i < paths@.len() && verdict_of(
                self.root_view(),
                self.rules_view(),
                paths@[i as int]@,
            ) == Verdict::Inspect,
    {
        let ghost pv = paths_view(paths@);
        let ghost start = scan@;
        while scan.next < paths.len()
            invariant
                pv == paths_view(paths@),
                start == old(scan)@,
                scan_from(self.root_view(), self.rules_view(), pv, start) == scan_from(
                    self.root_view(),
                    self.rules_view(),
                    pv,
                    scan@,
                ),
            decreases paths.len() - scan.next,
        {
            let i = scan.next;
            proof {
                assert(pv[i as int] == paths@[i as int]@);
            }
            match self.classify(paths[i].as_str()) {
                Verdict::OutsideRoot => {
                    proof {
                        assert(scan_from(self.root_view(), self.rules_view(), pv, scan@) == (
                        PumpAction::ReportOutside(i), (i + 1) as nat));
                    }
                    scan.next = i + 1;
                    return PumpAction::ReportOutside(i);
                },
                Verdict::Ignored => {
                    scan.next = i + 1;
                },
                Verdict::Inspect => {
                    proof {
                        assert(scan_from(self.root_view(), self.rules_view(), pv, scan@) == (
                        PumpAction::Inspect(i), i as nat));
                    }
                    return PumpAction::Inspect(i);
                },
            }
        }
        scan.next = paths.len();
        PumpAction::Finish
    }

    /// Takes the content read for the path under inspection, `None` when it
    /// could not be read, and moves the scan on. A real change dispatches that
    /// path and ends the batch; anything else resumes the scan after it.
    pub fn inspected(
        &mut self,
        paths: &Vec<String>,
        scan: &mut BatchScan,
        content: Option<&[u8]>,
    ) -> (r: PumpAction)
        requires
            old(self).wf(),
            old(scan)@ < paths@.len(),
        ensures
            final(self).wf(),
            final(self).root_view() == old(self).root_view(),
            final(self).rules_view() == old(self).rules_view(),
            final(self).history_view() == after_read(
                old(self).history_view(),
                paths@[old(scan)@ as int]@,
                content_view(content),
            ),
            is_change(old(self).history_view(), paths@[old(scan)@ as int]@, content_view(content))
                ==> r == PumpAction::Dispatch(old(scan)@ as usize) && final(scan)@ == paths@.len(),
            !is_change(old(self).history_view(), paths@[old(scan)@ as int]@, content_view(content))
                ==> (r, final(scan)@) == scan_from(
                old(self).root_view(),
                old(self).rules_view(),
                paths_view(paths@),
                old(scan)@ + 1,
            ),
            r matches PumpAction::Inspect(i) ==> i < paths@.len() && verdict_of(
                old(self).root_view(),
                old(self).rules_view(),
                paths@[i as int]@,
            ) == Verdict::Inspect,
    {
        let i = scan.next;
        let n = paths.len();
        proof {
            assert(i < n);
        }
        if self.judge(paths[i].as_str(), content) {
            scan.next = paths.len();
            PumpAction::Dispatch(i)
        } else {
            scan.next = i + 1;
            self.next_action(paths, scan)
        }
    }
}

} // verus!
