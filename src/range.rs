use vstd::prelude::*;
use crate::commit::RawCommit;
use crate::release::at_positions;

verus! {

/// Whether a glob pattern matches a text: `None` when the pattern is not a valid glob.
pub uninterp spec fn glob_matches(pattern: Seq<char>, text: Seq<char>) -> Option<bool>;

/// Relies on `globset::Glob::new`, `globset::GlobSet::new` and `GlobSet::is_match`: `None` when
/// the pattern does not parse or its matcher cannot be built (both are reported as errors, not
/// panics), else whether the matcher accepts the text.
#[verifier::external_body]
fn glob_match(pattern: &str, text: &str) -> (r: Option<bool>)
    ensures
        r == glob_matches(pattern@, text@),
{
    match globset::Glob::new(pattern) {
        Ok(g) => match globset::GlobSet::new([g]) {
            Ok(set) => Some(set.is_match(text)),
            Err(_) => None,
        },
        Err(_) => None,
    }
}

/// Scans `ps` from index `i` for a pattern that matches `t`: `Err` with the first invalid
/// pattern met before a match.
pub open spec fn pattern_scan(ps: Seq<String>, t: Seq<char>, i: int) -> Result<bool, Seq<char>>
    decreases ps.len() - i,
{
    if i < 0 || i >= ps.len() {
        Ok(false)
    } else {
        match glob_matches(ps[i]@, t) {
            None => Err(ps[i]@),
            Some(true) => Ok(true),
            Some(false) => pattern_scan(ps, t, i + 1),
        }
    }
}

pub open spec fn scan_view(r: Result<bool, String>) -> Result<bool, Seq<char>> {
    match r {
        Ok(b) => Ok(b),
        Err(s) => Err(s@),
    }
}

/// Whether some pattern of `patterns` matches `text`, or the first invalid pattern met.
pub fn any_pattern_matches(patterns: &Vec<String>, text: &str) -> (r: Result<bool, String>)
    ensures
        scan_view(r) == pattern_scan(patterns@, text@, 0),
{
    let mut i: usize = 0;
    while i < patterns.len()
        invariant
            0 <= i <= patterns@.len(),
            pattern_scan(patterns@, text@, 0) == pattern_scan(patterns@, text@, i as int),
        decreases patterns@.len() - i,
    {
        match glob_match(patterns[i].as_str(), text) {
            None => {
                return Err(patterns[i].clone());
            },
            Some(true) => {
                return Ok(true);
            },
            Some(false) => {},
        }
        i += 1;
    }
    Ok(false)
}

/// Scans the paths from index `j` for one whose pattern scan gives `want`: `Err` with the first
/// invalid pattern met before.
pub open spec fn paths_scan(ps: Seq<String>, paths: Seq<String>, want: bool, j: int) -> Result<
    bool,
    Seq<char>,
>
    decreases paths.len() - j,
{
    if j < 0 || j >= paths.len() {
        Ok(false)
    } else {
        match pattern_scan(ps, paths[j]@, 0) {
            Err(e) => Err(e),
            Ok(b) => if b == want {
                Ok(true)
            } else {
                paths_scan(ps, paths, want, j + 1)
            },
        }
    }
}

/// The commits of `s`, in order, that touch a path whose membership in `ps` is `want`:
/// with `want` a commit touching a path that a pattern matches, without it a commit touching a
/// path that no pattern matches.
pub open spec fn select_commits(s: Seq<RawCommit>, ps: Seq<String>, want: bool) -> Result<
    Seq<RawCommit>,
    Seq<char>,
>
    decreases s.len(),
{
    if s.len() == 0 {
        Ok(Seq::empty())
    } else {
        match select_commits(s.drop_last(), ps, want) {
            Err(e) => Err(e),
            Ok(p) => match paths_scan(ps, s.last().paths@, want, 0) {
                Err(e) => Err(e),
                Ok(true) => Ok(p.push(s.last())),
                Ok(false) => Ok(p),
            },
        }
    }
}

/// Every commit that a package selection keeps touches a path that a pattern of the package
/// matches: a commit touching no such path is left out of the package's range.
pub proof fn lemma_selected_commits_touch(s: Seq<RawCommit>, ps: Seq<String>)
    ensures
        select_commits(s, ps, true) matches Ok(r) ==> forall|k: int|
            0 <= k < r.len() ==> paths_scan(ps, (#[trigger] r[k]).paths@, true, 0) == Ok::<bool, Seq<char>>(true),
    decreases s.len(),
{
    if s.len() > 0 {
        lemma_selected_commits_touch(s.drop_last(), ps);
        if let Ok(r) = select_commits(s, ps, true) {
            let p = select_commits(s.drop_last(), ps, true)->Ok_0;
            assert forall|k: int| 0 <= k < r.len() implies paths_scan(ps, (#[trigger] r[k]).paths@, true, 0) == Ok::<bool, Seq<char>>(true) by {
                if k < p.len() {
                    assert(r[k] == p[k]);
                }
            }
        }
    }
}

/// Whether some path of `paths` has a pattern scan that gives `want`.
fn some_path_is(patterns: &Vec<String>, paths: &Vec<String>, want: bool) -> (r: Result<
    bool,
    String,
>)
    ensures
        scan_view(r) == paths_scan(patterns@, paths@, want, 0),
{
    let mut j: usize = 0;
    while j < paths.len()
        invariant
            0 <= j <= paths@.len(),
            paths_scan(patterns@, paths@, want, 0) == paths_scan(patterns@, paths@, want, j as int),
        decreases paths@.len() - j,
    {
        match any_pattern_matches(patterns, paths[j].as_str()) {
            Err(e) => {
                return Err(e);
            },
            Ok(b) => {
                if b == want {
                    return Ok(true);
                }
            },
        }
        j += 1;
    }
    Ok(false)
}

/// Selects, in order, the commits of `history[start..end]` that touch a path whose membership
/// in `patterns` is `want`; `Err` with the first invalid pattern met.
pub fn select_range(
    history: &Vec<RawCommit>,
    start: usize,
    end: usize,
    patterns: &Vec<String>,
    want: bool,
) -> (r: Result<Vec<usize>, String>)
    requires
        start <= end <= history@.len(),
    ensures
        r matches Ok(idx) ==> select_commits(history@.subrange(start as int, end as int), patterns@, want)
            == Ok::<Seq<RawCommit>, Seq<char>>(at_positions(history@, idx@)),
        r matches Ok(idx) ==> forall|k: int| 0 <= k < idx@.len() ==> start <= #[trigger] idx@[k] < end,
        r matches Err(e) ==> select_commits(history@.subrange(start as int, end as int), patterns@, want)
            == Err::<Seq<RawCommit>, Seq<char>>(e@),
{
    let mut out: Vec<usize> = Vec::new();
    let mut i: usize = start;
    assert(history@.subrange(start as int, start as int) =~= Seq::<RawCommit>::empty());
    assert(at_positions(history@, out@) =~= Seq::<RawCommit>::empty());
    while i < end
        invariant
            start <= i <= end <= history@.len(),
            select_commits(history@.subrange(start as int, i as int), patterns@, want) == Ok::<
                Seq<RawCommit>,
                Seq<char>,
            >(at_positions(history@, out@)),
            forall|k: int| 0 <= k < out@.len() ==> start <= #[trigger] out@[k] < i,
        decreases end - i,
    {
        let ghost prev = history@.subrange(start as int, i as int);
        let ghost next = history@.subrange(start as int, i + 1);
        assert(next.drop_last() =~= prev);
        assert(next.last() == history@[i as int]);
        match some_path_is(patterns, &history[i].paths, want) {
            Err(e) => {
                proof {
                    lemma_select_err_extends(history@, start as int, i as int + 1, end as int, patterns@, want);
                }
                return Err(e);
            },
            Ok(true) => {
                let ghost before = out@;
                out.push(i);
                assert(at_positions(history@, out@) =~= at_positions(history@, before).push(history@[i as int]));
            },
            Ok(false) => {},
        }
        i += 1;
    }
    Ok(out)
}

/// An error met on a prefix of the range stays the outcome of the whole range.
proof fn lemma_select_err_extends(
    h: Seq<RawCommit>,
    start: int,
    mid: int,
    end: int,
    ps: Seq<String>,
    want: bool,
)
    requires
        0 <= start <= mid <= end <= h.len(),
        select_commits(h.subrange(start, mid), ps, want) is Err,
    ensures
        select_commits(h.subrange(start, end), ps, want) == select_commits(h.subrange(start, mid), ps, want),
    decreases end - mid,
{
    if end > mid {
        lemma_select_err_extends(h, start, mid, end - 1, ps, want);
        assert(h.subrange(start, end).drop_last() =~= h.subrange(start, end - 1));
    }
}

/// A commit range: from the commit `from` (excluded, unless `from_inclusive`) to the commit `to`
/// (included).
#[derive(Debug)]
pub struct RevspecPattern {
    pub from: String,
    pub to: String,
    pub from_inclusive: bool,
}

/// The first position in `h` of the commit with id `oid`.
pub open spec fn position_of(h: Seq<RawCommit>, oid: Seq<char>) -> Option<int> {
    if exists|i: int| 0 <= i < h.len() && (#[trigger] h[i]).oid@ == oid {
        Some(choose|i: int| 0 <= i < h.len() && (#[trigger] h[i]).oid@ == oid && forall|j: int|
            0 <= j < i ==> (#[trigger] h[j]).oid@ != oid)
    } else {
        None
    }
}

/// The bounds `[start, end)` of the range in the history (oldest first); `None` when one of
/// its ends is not in the history. A range whose end precedes its start is empty.
pub open spec fn range_bounds(h: Seq<RawCommit>, p: RevspecPattern) -> Option<(int, int)> {
    match (position_of(h, p.from@), position_of(h, p.to@)) {
        (Some(f), Some(t)) => {
            let start = if p.from_inclusive { f } else { f + 1 };
            let end = t + 1;
            Some((start, if end < start { start } else { end }))
        },
        _ => None,
    }
}

/// The first position of the commit with id `oid`.
pub fn find_commit(history: &Vec<RawCommit>, oid: &String) -> (r: Option<usize>)
    ensures
        r matches Some(i) ==> position_of(history@, oid@) == Some(i as int),
        r matches Some(i) ==> i < history@.len(),
        r is None ==> position_of(history@, oid@) is None,
{
    let mut i: usize = 0;
    while i < history.len()
        invariant
            0 <= i <= history@.len(),
            forall|j: int| 0 <= j < i ==> (#[trigger] history@[j]).oid@ != oid@,
        decreases history@.len() - i,
    {
        if history[i].oid == *oid {
            let ghost k = choose|k: int| 0 <= k < history@.len() && (#[trigger] history@[k]).oid@ == oid@
                && forall|j: int| 0 <= j < k ==> (#[trigger] history@[j]).oid@ != oid@;
            assert(history@[i as int].oid@ == oid@);
            assert(k == i) by {
                if k < i {
                } else if k > i {
                    assert(history@[i as int].oid@ != oid@);
                }
            }
            return Some(i);
        }
        i += 1;
    }
    None
}

/// The bounds `[start, end)` of a commit range in the history.
pub fn commit_range_bounds(history: &Vec<RawCommit>, pattern: &RevspecPattern) -> (r: Option<
    (usize, usize),
>)
    ensures
        r matches Some(b) ==> range_bounds(history@, *pattern) == Some((b.0 as int, b.1 as int)),
        r matches Some(b) ==> b.0 <= b.1 <= history@.len(),
        r is None ==> range_bounds(history@, *pattern) is None,
{
    // Reading the length brings in that it fits in a usize, which bounds the positions.
    let _len = history.len();
    let f = find_commit(history, &pattern.from);
    let t = find_commit(history, &pattern.to);
    match (f, t) {
        (Some(f), Some(t)) => {
            let start = if pattern.from_inclusive { f } else { f + 1 };
            let end = t + 1;
            Some((start, if end < start { start } else { end }))
        },
        _ => None,
    }
}

} // verus!
