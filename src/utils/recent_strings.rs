use vstd::prelude::*;

verus! {

/// Two slots holding the most recently added strings, with a cursor on the
/// slot that was written last. Both slots start out empty.
pub struct RecentStrings {
    data: [String; 2],
    index: usize,
}

/// What a `RecentStrings` holds: both slots and the slot written last.
pub struct RecentView {
    pub first: Seq<char>,
    pub second: Seq<char>,
    pub last: nat,
}

/// The state of a fresh `RecentStrings`.
pub open spec fn recent_empty() -> RecentView {
    RecentView { first: Seq::empty(), second: Seq::empty(), last: 0 }
}

/// The effect of `add`: the cursor moves to the other slot, which takes `s`
/// and so drops the older of the two strings.
pub open spec fn recent_add(r: RecentView, s: Seq<char>) -> RecentView {
    if r.last == 0 {
        RecentView { first: r.first, second: s, last: 1 }
    } else {
        RecentView { first: s, second: r.second, last: 0 }
    }
}

/// Membership in either slot.
pub open spec fn recent_contains(r: RecentView, s: Seq<char>) -> bool {
    r.first == s || r.second == s
}

/// The string written last.
pub open spec fn recent_latest(r: RecentView) -> Seq<char> {
    if r.last == 0 {
        r.first
    } else {
        r.second
    }
}

impl View for RecentStrings {
    type V = RecentView;

    closed spec fn view(&self) -> RecentView {
        RecentView { first: self.data[0]@, second: self.data[1]@, last: self.index as nat }
    }
}

impl RecentStrings {
    /// The cursor always names one of the two slots.
    pub closed spec fn wf(&self) -> bool {
        self.index < 2
    }

    /// Two empty slots.
    pub fn new() -> (r: RecentStrings)
        ensures
            r.wf(),
            r@ == recent_empty(),
    {
        RecentStrings { data: [String::new(), String::new()], index: 0 }
    }

    /// Adds a new string to the struct, replacing the older string.
    pub fn add(&mut self, s: String)
        requires
            old(self).wf(),
        ensures
            final(self).wf(),
            final(self)@ == recent_add(old(self)@, s@),
    {
        self.index = (self.index + 1) % 2;
        self.data[self.index] = s;
    }

    /// Checks if the given string matches either of the stored strings.
    pub fn contains(&self, s: &str) -> (r: bool)
        ensures
            r == recent_contains(self@, s@),
    {
        let t = s.to_owned();
        self.data[0] == t || self.data[1] == t
    }
}

impl Default for RecentStrings {
    fn default() -> (r: RecentStrings)
        ensures
            r.wf(),
            r@ == recent_empty(),
    {
        RecentStrings::new()
    }
}

} // verus!
