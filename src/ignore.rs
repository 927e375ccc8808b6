//! The ignore matcher: rules compiled from the lines of an ignore file, and
//! the test of a relative path against them.
use vstd::prelude::*;
use crate::text::{
    chars_of, normalize, normalize_separators, no_backslash, strip_slash_chars, strip_slashes,
    string_of, trim, trim_chars, canonical_char,
};

verus! {

#[verifier::external_type_specification]
#[verifier::external_body]
pub struct ExPattern(glob::Pattern);

/// Whether glob accepts `pattern` as a well-formed glob.
pub uninterp spec fn glob_accepts(pattern: Seq<char>) -> bool;

/// Whether the glob `pattern` matches `path` under glob's default options.
pub uninterp spec fn glob_matches(pattern: Seq<char>, path: Seq<char>) -> bool;

/// A pattern that holds no glob metacharacter and no backslash: glob reads
/// each of its characters literally.
pub open spec fn plain_glob(p: Seq<char>) -> bool {
    forall|i: int|
        0 <= i < p.len() ==> p[i] != '*' && p[i] != '?' && p[i] != '[' && p[i] != ']' && p[i]
            != '\\'
}

/// The suffix that extends a directory rule to everything beneath it.
pub open spec fn recursive_suffix() -> Seq<char> {
    seq!['/', '*', '*']
}

/// A pattern `d/**` whose directory part `d` is plain.
pub open spec fn recursive_under_plain(p: Seq<char>) -> bool {
    p.len() >= 3 && p.subrange(p.len() - 3, p.len() as int) == recursive_suffix() && plain_glob(
        p.subrange(0, p.len() - 3),
    )
}

/// Whether a rule text compiles.
pub open spec fn rule_compiles(p: Seq<char>) -> bool {
    plain_glob(p) || recursive_under_plain(p) || glob_accepts(p)
}

/// Whether rule `p` matches `path`: the two simple shapes spelled out, any
/// other pattern as glob decides.
pub open spec fn rule_matches(p: Seq<char>, path: Seq<char>) -> bool {
    if plain_glob(p) && no_backslash(path) {
        path == p
    } else if recursive_under_plain(p) && no_backslash(path) {
        path.len() >= p.len() - 2 && path.subrange(0, p.len() - 2) == p.subrange(0, p.len() - 2)
    } else {
        glob_matches(p, path)
    }
}

/// Whether any rule matches `path` once its separators are normalised.
pub open spec fn ignored_by(rules: Seq<Seq<char>>, path: Seq<char>) -> bool {
    exists|i: int| 0 <= i < rules.len() && rule_matches(rules[i], normalize(path))
}

/// An entry that names a directory: it ends in `/`, or holds no `.`.
pub open spec fn is_dir_entry(e: Seq<char>) -> bool {
    (e.len() > 0 && e.last() == '/') || !e.contains('.')
}

/// The rule texts of one entry: the entry itself and, for a directory, the
/// recursive rule beneath it.
pub open spec fn entry_texts(e: Seq<char>) -> Seq<Seq<char>> {
    if is_dir_entry(e) {
        seq![e, strip_slashes(e) + recursive_suffix()]
    } else {
        seq![e]
    }
}

/// The texts among `ts` that compile, in order.
pub open spec fn compiling(ts: Seq<Seq<char>>) -> Seq<Seq<char>>
    decreases ts.len(),
{
    if ts.len() == 0 {
        seq![]
    } else {
        compiling(ts.drop_last()) + if rule_compiles(ts.last()) {
            seq![ts.last()]
        } else {
            seq![]
        }
    }
}

/// A trimmed line that holds an entry: neither blank nor a comment.
pub open spec fn is_entry_line(t: Seq<char>) -> bool {
    t.len() > 0 && t[0] != '#'
}

/// The rules that one line of an ignore file yields.
pub open spec fn line_rules(line: Seq<char>) -> Seq<Seq<char>> {
    if is_entry_line(trim(line)) {
        compiling(entry_texts(trim(line)))
    } else {
        seq![]
    }
}

/// The rules that the lines of an ignore file yield, in order.
pub open spec fn lines_rules(lines: Seq<Seq<char>>) -> Seq<Seq<char>>
    decreases lines.len(),
{
    if lines.len() == 0 {
        seq![]
    } else {
        lines_rules(lines.drop_last()) + line_rules(lines.last())
    }
}

/// The version-control metadata directory, `.git`.
pub open spec fn vcs_dir() -> Seq<char> {
    seq!['.', 'g', 'i', 't']
}

/// The rule that excludes everything beneath the version-control directory,
/// `.git/**`.
pub open spec fn vcs_rule() -> Seq<char> {
    vcs_dir() + recursive_suffix()
}

/// The fixed rules, always present: the version-control directory itself and
/// everything beneath it.
pub open spec fn vcs_rules() -> Seq<Seq<char>> {
    seq![vcs_dir(), vcs_rule()]
}

/// The lines of an ignore file as character sequences; `None` for no file.
pub open spec fn lines_view(lines: Option<Vec<String>>) -> Option<Seq<Seq<char>>> {
    match lines {
        Some(v) => Some(v@.map_values(|l: String| l@)),
        None => None,
    }
}

/// The rule set loaded from an ignore file, or from none.
pub open spec fn loaded_rules(lines: Option<Seq<Seq<char>>>) -> Seq<Seq<char>> {
    let custom = match lines {
        Some(ls) => lines_rules(ls),
        None => seq![],
    };
    custom + vcs_rules()
}

/// One compiled ignore rule and the text it was compiled from.
pub struct IgnoreRule {
    text: String,
    pattern: glob::Pattern,
}

impl View for IgnoreRule {
    type V = Seq<char>;

    closed spec fn view(&self) -> Seq<char> {
        self.text@
    }
}

/// Relies on glob::Pattern::new: it fails exactly on malformed globs, and a
/// pattern without `*`, `?` or brackets, or `d/**` with such a `d`, is
/// always well-formed.
#[verifier::external_body]
fn compile_rule(text: &str) -> (r: Option<IgnoreRule>)
    ensures
        r is Some <==> (plain_glob(text@) || recursive_under_plain(text@) || glob_accepts(text@)),
        r matches Some(rule) ==> rule@ == text@,
{
    match glob::Pattern::new(text) {
        Ok(pattern) => Some(IgnoreRule { text: text.to_string(), pattern }),
        Err(_) => None,
    }
}

/// Relies on glob::Pattern::matches, with its default options (case
/// sensitive, `*` may cross `/`): for a path without backslashes, a pattern
/// of literal characters matches that text alone, and `d/**` matches exactly
/// the paths that begin with `d/`.
#[verifier::external_body]
fn rule_hits(rule: &IgnoreRule, path: &str) -> (r: bool)
    ensures
        r == glob_matches(rule@, path@),
        r == rule_matches(rule@, path@),
{
    rule.pattern.matches(path)
}

/// An ordered set of ignore rules; a path is ignored when any of them matches.
pub struct IgnoreRules {
    rules: Vec<IgnoreRule>,
}

impl View for IgnoreRules {
    type V = Seq<Seq<char>>;

    closed spec fn view(&self) -> Seq<Seq<char>> {
        self.rules@.map_values(|r: IgnoreRule| r@)
    }
}

impl IgnoreRules {
    /// The number of rules.
    pub fn len(&self) -> (r: usize)
        ensures
            r == self@.len(),
    {
        self.rules.len()
    }
}

/// Appends the rule compiled from `text`, if it compiles.
fn add_compiled(rules: &mut IgnoreRules, text: &Vec<char>)
    ensures
        final(rules)@ == old(rules)@ + if rule_compiles(text@) {
            seq![text@]
        } else {
            seq![]
        },
{
    let s = string_of(text);
    match compile_rule(s.as_str()) {
        Some(rule) => {
            let ghost before = rules.rules@;
            rules.rules.push(rule);
            proof {
                assert(rules.rules@.map_values(|r: IgnoreRule| r@) =~= before.map_values(
                    |r: IgnoreRule| r@,
                ) + seq![text@]);
            }
        },
        None => {
            proof {
                assert(old(rules)@ + seq![] =~= old(rules)@);
            }
        },
    }
}

/// Whether `v` holds the character `c`.
fn holds_char(v: &Vec<char>, c: char) -> (r: bool)
    ensures
        r == v@.contains(c),
{
    let mut i: usize = 0;
    while i < v.len()
        invariant
            i <= v@.len(),
            forall|j: int| 0 <= j < i ==> v@[j] != c,
        decreases v.len() - i,
    {
        if v[i] == c {
            return true;
        }
        i += 1;
    }
    false
}

/// Appends the rules of one trimmed entry.
fn add_entry(rules: &mut IgnoreRules, entry: &Vec<char>)
    ensures
        final(rules)@ == old(rules)@ + compiling(entry_texts(entry@)),
{
    let n = entry.len();
    let is_dir = (n > 0 && entry[n - 1] == '/') || !holds_char(entry, '.');
    add_compiled(rules, entry);
    let ghost e = entry@;
    if is_dir {
        let mut rec = strip_slash_chars(entry);
        rec.push('/');
        rec.push('*');
        rec.push('*');
        proof {
            assert(rec@ =~= strip_slashes(e) + recursive_suffix());
        }
        add_compiled(rules, &rec);
        proof {
            let ts = entry_texts(e);
            assert(ts.drop_last() =~= seq![e]);
            assert(seq![e].drop_last() =~= Seq::<Seq<char>>::empty());
        }
    } else {
        proof {
            assert(seq![e].drop_last() =~= Seq::<Seq<char>>::empty());
        }
    }
    proof {
        reveal_with_fuel(compiling, 3);
        assert(rules@ =~= old(rules)@ + compiling(entry_texts(e)));
    }
}

/// Builds the rule set from the lines of an ignore file, or from `None` when
/// there is no such file. Each line is trimmed; blank lines and lines that
/// start with `#` are skipped. A directory entry also yields `dir/**`, so that
/// everything beneath it is ignored. Rules that do not compile are skipped.
/// The rules `.git` and `.git/**` always come last.
pub fn load_ignore_patterns(lines: Option<Vec<String>>) -> (r: IgnoreRules)
    ensures
        r@ == loaded_rules(lines_view(lines)),
        lines is None ==> r@ == vcs_rules(),
{
    let mut rules = IgnoreRules { rules: Vec::new() };
    proof {
        assert(rules@ =~= Seq::<Seq<char>>::empty());
    }
    match &lines {
        Some(ls) => {
            let ghost lv = ls@.map_values(|l: String| l@);
            let mut i: usize = 0;
            while i < ls.len()
                invariant
                    i <= ls@.len(),
                    lv == ls@.map_values(|l: String| l@),
                    rules@ == lines_rules(lv.subrange(0, i as int)),
                decreases ls.len() - i,
            {
                let line = chars_of(ls[i].as_str());
                let t = trim_chars(&line);
                if t.len() > 0 && t[0] != '#' {
                    add_entry(&mut rules, &t);
                } else {
                    proof {
                        assert(rules@ + seq![] =~= rules@);
                    }
                }
                proof {
                    assert(lv.subrange(0, i + 1).drop_last() =~= lv.subrange(0, i as int));
                }
                i += 1;
            }
            proof {
                assert(lv.subrange(0, lv.len() as int) =~= lv);
            }
        },
        None => {},
    }
    let dir = ".git";
    proof {
        reveal_strlit(".git");
    }
    let dir_chars = chars_of(dir);
    let ghost before = rules@;
    proof {
        assert(dir_chars@ =~= vcs_dir());
        lemma_vcs_rules_compile();
    }
    add_compiled(&mut rules, &dir_chars);
    let mut sub_chars = chars_of(dir);
    sub_chars.push('/');
    sub_chars.push('*');
    sub_chars.push('*');
    proof {
        assert(sub_chars@ =~= vcs_rule());
    }
    add_compiled(&mut rules, &sub_chars);
    proof {
        assert(rules@ =~= before + vcs_rules());
        if lines is None {
            assert(rules@ =~= vcs_rules());
        }
    }
    rules
}

proof fn lemma_vcs_rules_compile()
    ensures
        plain_glob(vcs_dir()),
        !plain_glob(vcs_rule()),
        recursive_under_plain(vcs_rule()),
        rule_compiles(vcs_dir()),
        rule_compiles(vcs_rule()),
{
    assert(vcs_rule()[5] == '*');
    assert(vcs_rule().subrange(4, 7) =~= recursive_suffix());
    assert(vcs_rule().subrange(0, 4) =~= vcs_dir());
}

proof fn lemma_normalize_no_backslash(p: Seq<char>)
    ensures
        no_backslash(normalize(p)),
{
}

/// Whether `path` is ignored: it is normalised to `/` separators, and is
/// ignored when any rule matches it.
pub fn should_ignore(path: &str, ignore_patterns: &IgnoreRules) -> (r: bool)
    ensures
        r == ignored_by(ignore_patterns@, path@),
{
    let norm = normalize_separators(path);
    proof {
        lemma_normalize_no_backslash(path@);
    }
    let mut i: usize = 0;
    while i < ignore_patterns.rules.len()
        invariant
            i <= ignore_patterns.rules@.len(),
            norm@ == normalize(path@),
            forall|j: int| 0 <= j < i ==> !rule_matches(ignore_patterns@[j], norm@),
        decreases ignore_patterns.rules.len() - i,
    {
        if rule_hits(&ignore_patterns.rules[i], norm.as_str()) {
            proof {
                assert(rule_matches(ignore_patterns@[i as int], normalize(path@)));
            }
            return true;
        }
        i += 1;
    }
    false
}

proof fn lemma_strip_slashes(e: Seq<char>)
    ensures
        strip_slashes(e).len() <= e.len(),
        strip_slashes(e) == e.subrange(0, strip_slashes(e).len() as int),
        forall|i: int| strip_slashes(e).len() <= i < e.len() ==> e[i] == '/',
    decreases e.len(),
{
    if e.len() > 0 && e.last() == '/' {
        lemma_strip_slashes(e.drop_last());
        assert forall|i: int| strip_slashes(e).len() <= i < e.len() implies e[i] == '/' by {
            if i < e.len() - 1 {
                assert(e[i] == e.drop_last()[i]);
            }
        }
        assert(e.drop_last().subrange(0, strip_slashes(e).len() as int) =~= e.subrange(
            0,
            strip_slashes(e).len() as int,
        ));
    } else {
        assert(e.subrange(0, e.len() as int) =~= e);
    }
}

/// The rules of a directory entry written without glob metacharacters catch
/// every path beneath the directory, `d/x` and `d/x/y` alike, and none that
/// only extends its name, such as `de` for `d`.
pub proof fn lemma_directory_entry_rules(e: Seq<char>, below: Seq<char>, tail: Seq<char>)
    requires
        is_dir_entry(e),
        plain_glob(e),
        tail.len() > 0,
        tail[0] != '/',
        tail[0] != '\\',
    ensures
        ignored_by(compiling(entry_texts(e)), strip_slashes(e) + seq!['/'] + below),
        !ignored_by(compiling(entry_texts(e)), strip_slashes(e) + tail),
{
    let d = strip_slashes(e);
    lemma_strip_slashes(e);
    let rec = d + recursive_suffix();
    assert(rec.subrange(rec.len() - 3, rec.len() as int) =~= recursive_suffix());
    assert(rec.subrange(0, rec.len() - 3) =~= d);
    assert(recursive_under_plain(rec));
    let ts = seq![e, rec];
    assert(ts.drop_last() =~= seq![e]);
    assert(seq![e].drop_last() =~= Seq::<Seq<char>>::empty());
    let rules = compiling(entry_texts(e));
    reveal_with_fuel(compiling, 3);
    assert(rules =~= ts);
    assert(normalize(d) =~= d);
    let p = d + seq!['/'] + below;
    let np = normalize(p);
    lemma_normalize_no_backslash(p);
    assert(np.subrange(0, rec.len() - 2) =~= rec.subrange(0, rec.len() - 2));
    assert(rule_matches(rules[1], np));
    let q = d + tail;
    let nq = normalize(q);
    lemma_normalize_no_backslash(q);
    assert(nq[d.len() as int] == canonical_char(tail[0]));
    assert(!rule_matches(rules[0], nq)) by {
        if nq == e {
            if e.len() == d.len() {
                assert(nq.len() > d.len());
            } else {
                assert(e[d.len() as int] == '/');
            }
        }
    }
    assert(!rule_matches(rules[1], nq)) by {
        if nq.len() >= rec.len() - 2 {
            assert(nq.subrange(0, rec.len() - 2)[d.len() as int] == nq[d.len() as int]);
            assert(rec.subrange(0, rec.len() - 2)[d.len() as int] == '/');
        }
    }
}

/// Whatever the ignore file holds, and without one, the version-control
/// directory `.git` and every path beneath it are ignored.
pub proof fn lemma_vcs_always_ignored(lines: Option<Seq<Seq<char>>>, below: Seq<char>)
    ensures
        ignored_by(loaded_rules(lines), vcs_dir()),
        ignored_by(loaded_rules(lines), vcs_dir() + seq!['/'] + below),
{
    lemma_vcs_rules_compile();
    let rules = loaded_rules(lines);
    let n = rules.len() - 2;
    assert(rules[n] == vcs_dir());
    assert(rules[n + 1] == vcs_rule());
    lemma_normalize_no_backslash(vcs_dir());
    assert(normalize(vcs_dir()) =~= vcs_dir());
    assert(rule_matches(rules[n], normalize(vcs_dir())));
    let p = vcs_dir() + seq!['/'] + below;
    lemma_normalize_no_backslash(p);
    assert(normalize(p).subrange(0, 5) =~= vcs_rule().subrange(0, 5));
    assert(rule_matches(rules[n + 1], normalize(p)));
}

} // verus!
