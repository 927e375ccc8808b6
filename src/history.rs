//! The fingerprint history: for each path, the two most recent content
//! fingerprints seen for it.
use vstd::prelude::*;
use crate::utils::recent_strings::{
    RecentStrings, RecentView, recent_add, recent_contains, recent_empty,
};

verus! {

/// The index of the last occurrence of `k` in `keys`, or -1.
pub open spec fn find_key(keys: Seq<Seq<char>>, k: Seq<char>) -> int
    decreases keys.len(),
{
    if keys.len() == 0 {
        -1
    } else if keys.last() == k {
        keys.len() - 1
    } else {
        find_key(keys.drop_last(), k)
    }
}

/// Whether observing `f` for a path whose history is `h` counts as a change:
/// `f` is not among the fingerprints kept for it.
pub open spec fn is_novel(h: Map<Seq<char>, RecentView>, path: Seq<char>, f: Seq<char>) -> bool {
    !(h.contains_key(path) && recent_contains(h[path], f))
}

/// The history after observing `f` for `path`: `f` enters the path's two
/// slots whether or not it was novel.
pub open spec fn observed(h: Map<Seq<char>, RecentView>, path: Seq<char>, f: Seq<char>) -> Map<
    Seq<char>,
    RecentView,
> {
    let before = if h.contains_key(path) {
        h[path]
    } else {
        recent_empty()
    };
    h.insert(path, recent_add(before, f))
}

/// Per-path history of recent content fingerprints. Paths are kept in the
/// order they were first seen, each once, beside their two-slot buffers.
pub struct FingerprintHistory {
    paths: Vec<String>,
    recent: Vec<RecentStrings>,
}

proof fn lemma_find_key(keys: Seq<Seq<char>>, k: Seq<char>)
    ensures
        -1 <= find_key(keys, k) < keys.len(),
        find_key(keys, k) >= 0 ==> keys[find_key(keys, k)] == k,
        find_key(keys, k) == -1 ==> !keys.contains(k),
    decreases keys.len(),
{
    if keys.len() > 0 {
        lemma_find_key(keys.drop_last(), k);
        if find_key(keys, k) == -1 {
            assert forall|i: int| 0 <= i < keys.len() implies keys[i] != k by {
                if i < keys.len() - 1 {
                    assert(keys[i] == keys.drop_last()[i]);
                }
            }
        }
    }
}

impl FingerprintHistory {
    /// The paths seen so far, in order.
    pub closed spec fn keys(&self) -> Seq<Seq<char>> {
        self.paths@.map_values(|p: String| p@)
    }

    /// Both vectors line up, and every buffer is well formed.
    pub closed spec fn wf(&self) -> bool {
        &&& self.paths@.len() == self.recent@.len()
        &&& forall|i: int| 0 <= i < self.recent@.len() ==> #[trigger] self.recent@[i].wf()
    }
}

impl View for FingerprintHistory {
    type V = Map<Seq<char>, RecentView>;

    closed spec fn view(&self) -> Map<Seq<char>, RecentView> {
        Map::new(
            |k: Seq<char>| find_key(self.keys(), k) >= 0,
            |k: Seq<char>| self.recent@[find_key(self.keys(), k)]@,
        )
    }
}

impl FingerprintHistory {
    /// An empty history.
    pub fn new() -> (r: FingerprintHistory)
        ensures
            r.wf(),
            r@ == Map::<Seq<char>, RecentView>::empty(),
    {
        let r = FingerprintHistory { paths: Vec::new(), recent: Vec::new() };
        proof {
            assert(r@ =~= Map::<Seq<char>, RecentView>::empty());
        }
        r
    }

    /// The slot of `path`, if it has one.
    fn position(&self, path: &String) -> (r: Option<usize>)
        requires
            self.wf(),
        ensures
            r matches Some(i) ==> i as int == find_key(self.keys(), path@),
            r is None ==> find_key(self.keys(), path@) == -1,
    {
        let mut i: usize = self.paths.len();
        proof {
            assert(self.keys().subrange(0, i as int) =~= self.keys());
        }
        while i > 0
            invariant
                i <= self.paths@.len(),
                find_key(self.keys(), path@) == find_key(self.keys().subrange(0, i as int), path@),
            decreases i,
        {
            let ghost sub = self.keys().subrange(0, i as int);
            if self.paths[i - 1] == *path {
                return Some(i - 1);
            }
            proof {
                assert(sub.drop_last() =~= self.keys().subrange(0, i - 1));
            }
            i -= 1;
        }
        None
    }

    /// Records `fingerprint` as observed for `path` and says whether it is
    /// novel: true when it is not among the two fingerprints kept for the
    /// path, and always for a path seen for the first time. The fingerprint
    /// is kept in either case, dropping the older of the two.
    pub fn observe(&mut self, path: &str, fingerprint: String) -> (r: bool)
        requires
            old(self).wf(),
        ensures
            final(self).wf(),
            r == is_novel(old(self)@, path@, fingerprint@),
            final(self)@ == observed(old(self)@, path@, fingerprint@),
    {
        let key = path.to_owned();
        let ghost h = self@;
        let ghost keys = self.keys();
        proof {
            lemma_find_key(keys, key@);
        }
        match self.position(&key) {
            Some(i) => {
                let novel = !self.recent[i].contains(fingerprint.as_str());
                let ghost before = self.recent@;
                self.recent[i].add(fingerprint);
                proof {
                    assert(self.keys() == keys);
                    assert forall|j: int| 0 <= j < self.recent@.len() implies #[trigger] self.recent@[j].wf() by {
                        if j != i {
                            assert(self.recent@[j] == before[j]);
                        }
                    }
                    assert forall|k: Seq<char>| k != key@ && #[trigger] self@.contains_key(k) implies self@[k] == h[k] by {
                        lemma_find_key(keys, k);
                    }
                    assert(self@ =~= observed(h, key@, fingerprint@));
                }
                novel
            },
            None => {
                let mut fresh = RecentStrings::new();
                fresh.add(fingerprint);
                let ghost before = self.recent@;
                self.paths.push(key);
                self.recent.push(fresh);
                proof {
                    let nk = self.keys();
                    assert(nk =~= keys.push(key@));
                    assert(nk.drop_last() =~= keys);
                    assert forall|j: int| 0 <= j < self.recent@.len() implies #[trigger] self.recent@[j].wf() by {
                        if j < before.len() {
                            assert(self.recent@[j] == before[j]);
                        }
                    }
                    assert forall|k: Seq<char>| k != key@ && #[trigger] h.contains_key(k) implies self@[k] == h[k] by {
                        lemma_find_key(keys, k);
                        assert(self.recent@[find_key(keys, k)] == before[find_key(keys, k)]);
                    }
                    assert(self@ =~= observed(h, key@, fingerprint@));
                }
                true
            },
        }
    }
}

/// A fingerprint that returns after one other is still remembered: of the
/// observations `h1, h2, h1` on one path, the third is not novel, whatever
/// the history was before.
pub proof fn lemma_oscillation_absorbed(
    h: Map<Seq<char>, RecentView>,
    path: Seq<char>,
    h1: Seq<char>,
    h2: Seq<char>,
)
    ensures
        !is_novel(observed(observed(h, path, h1), path, h2), path, h1),
{
}

/// Of the observations `h1, h2, h3` on one path, with `h3` unlike both
/// others, the third is novel.
pub proof fn lemma_third_distinct_is_novel(
    h: Map<Seq<char>, RecentView>,
    path: Seq<char>,
    h1: Seq<char>,
    h2: Seq<char>,
    h3: Seq<char>,
)
    requires
        h3 != h1,
        h3 != h2,
    ensures
        is_novel(observed(observed(h, path, h1), path, h2), path, h3),
{
}

/// Observing the same fingerprint twice in a row for a path never makes the
/// second observation novel.
pub proof fn lemma_repeat_not_novel(h: Map<Seq<char>, RecentView>, path: Seq<char>, f: Seq<char>)
    ensures
        !is_novel(observed(h, path, f), path, f),
{
}

} // verus!
