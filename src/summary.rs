use vstd::prelude::*;
use crate::commit::{ClassifiedCommit, CommitKind};

verus! {

/// What a bump reports on its commits: the commits that drive the version, by position, and
/// for the other commit types how many commits each has, in the order of conventional types.
#[derive(Debug)]
pub struct BumpSummary {
    pub skipped: Vec<(usize, String)>,
    pub bump_commits: Vec<usize>,
}

/// Whether a commit drives the version: breaking, a feature or a fix.
pub open spec fn drives_bump(c: ClassifiedCommit) -> bool {
    c.breaking || c.kind is Feature || c.kind is BugFix
}

/// The type names of the commits that do not drive the version, in order.
pub open spec fn skipped_names(cs: Seq<ClassifiedCommit>) -> Seq<String>
    decreases cs.len(),
{
    if cs.len() == 0 {
        Seq::empty()
    } else {
        let p = skipped_names(cs.drop_last());
        match cs.last().kind {
            CommitKind::Other(s) => if cs.last().breaking {
                p
            } else {
                p.push(s)
            },
            _ => p,
        }
    }
}

/// The positions of the commits that drive the version, in order.
pub open spec fn bump_positions(cs: Seq<ClassifiedCommit>) -> Seq<usize>
    decreases cs.len(),
{
    if cs.len() == 0 {
        Seq::empty()
    } else if drives_bump(cs.last()) {
        bump_positions(cs.drop_last()).push((cs.len() - 1) as usize)
    } else {
        bump_positions(cs.drop_last())
    }
}

/// Lexicographic order of texts by character.
pub open spec fn text_le(a: Seq<char>, b: Seq<char>) -> bool
    decreases a.len(),
{
    if a.len() == 0 {
        true
    } else if b.len() == 0 {
        false
    } else if a[0] != b[0] {
        (a[0] as u32) < (b[0] as u32)
    } else {
        text_le(a.skip(1), b.skip(1))
    }
}

/// Runs of equal texts, each with its length, in order.
pub open spec fn runs(s: Seq<String>) -> Seq<(nat, Seq<char>)>
    decreases s.len(),
{
    if s.len() == 0 {
        Seq::empty()
    } else {
        let r = runs(s.drop_last());
        if r.len() > 0 && r.last().1 == s.last()@ {
            r.drop_last().push((r.last().0 + 1, s.last()@))
        } else {
            r.push((1, s.last()@))
        }
    }
}

/// The sum of the run lengths.
pub open spec fn run_total(r: Seq<(nat, Seq<char>)>) -> nat
    decreases r.len(),
{
    if r.len() == 0 {
        0
    } else {
        run_total(r.drop_last()) + r.last().0
    }
}

/// The runs of a sequence count each of its items once.
pub proof fn lemma_runs_total(s: Seq<String>)
    ensures
        run_total(runs(s)) == s.len(),
    decreases s.len(),
{
    if s.len() > 0 {
        lemma_runs_total(s.drop_last());
        let r = runs(s.drop_last());
        if r.len() > 0 && r.last().1 == s.last()@ {
            assert(r.drop_last().push((r.last().0 + 1, s.last()@)).drop_last() =~= r.drop_last());
        } else {
            assert(r.push((1nat, s.last()@)).drop_last() =~= r);
        }
    }
}

/// The number of commits that do not drive the version.
pub open spec fn skipped_count(cs: Seq<ClassifiedCommit>) -> nat
    decreases cs.len(),
{
    if cs.len() == 0 {
        0
    } else {
        skipped_count(cs.drop_last()) + if drives_bump(cs.last()) { 0nat } else { 1nat }
    }
}

/// Every commit that does not drive the version has a type name among the skipped ones.
pub proof fn lemma_skipped_names_len(cs: Seq<ClassifiedCommit>)
    ensures
        skipped_names(cs).len() == skipped_count(cs),
    decreases cs.len(),
{
    if cs.len() > 0 {
        lemma_skipped_names_len(cs.drop_last());
    }
}

/// When no commit is breaking, a feature or a fix, no commit is reported as driving the
/// version and every commit is counted among the skipped types.
pub proof fn lemma_no_bump_commits_all_skipped(cs: Seq<ClassifiedCommit>)
    requires
        forall|k: int| 0 <= k < cs.len() ==> !drives_bump(#[trigger] cs[k]),
    ensures
        skipped_count(cs) == cs.len(),
        bump_positions(cs).len() == 0,
    decreases cs.len(),
{
    if cs.len() > 0 {
        assert forall|k: int| 0 <= k < cs.drop_last().len() implies !drives_bump(#[trigger] cs.drop_last()[k]) by {
            assert(cs.drop_last()[k] == cs[k]);
        }
        lemma_no_bump_commits_all_skipped(cs.drop_last());
        assert(!drives_bump(cs[cs.len() - 1]));
    }
}

pub open spec fn counts_view(r: Seq<(usize, String)>) -> Seq<(nat, Seq<char>)> {
    r.map_values(|p: (usize, String)| (p.0 as nat, p.1@))
}

/// The position of a commit type in the order of conventional types: `chore`, `revert`,
/// `perf`, `docs`, `style`, `refactor`, `test`, `build`, `ci`, then every custom type (`feat`
/// and `fix` come first but are never skipped).
pub open spec fn type_rank(name: Seq<char>) -> u64 {
    if name == "feat"@ { 0 }
    else if name == "fix"@ { 1 }
    else if name == "chore"@ { 2 }
    else if name == "revert"@ { 3 }
    else if name == "perf"@ { 4 }
    else if name == "docs"@ { 5 }
    else if name == "style"@ { 6 }
    else if name == "refactor"@ { 7 }
    else if name == "test"@ { 8 }
    else if name == "build"@ { 9 }
    else if name == "ci"@ { 10 }
    else { 11 }
}

/// The position of a commit type in the order of conventional types.
pub fn rank_of(name: &String) -> (r: u64)
    ensures
        r == type_rank(name@),
{
    if *name == String::from_str("feat") { 0 }
    else if *name == String::from_str("fix") { 1 }
    else if *name == String::from_str("chore") { 2 }
    else if *name == String::from_str("revert") { 3 }
    else if *name == String::from_str("perf") { 4 }
    else if *name == String::from_str("docs") { 5 }
    else if *name == String::from_str("style") { 6 }
    else if *name == String::from_str("refactor") { 7 }
    else if *name == String::from_str("test") { 8 }
    else if *name == String::from_str("build") { 9 }
    else if *name == String::from_str("ci") { 10 }
    else { 11 }
}

/// Type order: by rank, custom types among themselves by name.
pub open spec fn key_le(a: (u64, String), b: (u64, String)) -> bool {
    a.0 < b.0 || (a.0 == b.0 && text_le(a.1@, b.1@))
}

pub open spec fn key_sorted(s: Seq<(u64, String)>) -> bool {
    forall|i: int, j: int| 0 <= i < j < s.len() ==> key_le(#[trigger] s[i], #[trigger] s[j])
}

/// Each type name with its rank.
pub open spec fn keyed(names: Seq<String>) -> Seq<(u64, String)> {
    names.map_values(|n: String| (type_rank(n@), n))
}

pub open spec fn names_of(ks: Seq<(u64, String)>) -> Seq<String> {
    ks.map_values(|p: (u64, String)| p.1)
}

/// Relies on `slice::sort` for `(u64, String)`: the same pairs, ordered by the number and then
/// by the string's lexicographic order.
#[verifier::external_body]
fn sort_keyed(items: Vec<(u64, String)>) -> (r: Vec<(u64, String)>)
    ensures
        r@.to_multiset() == items@.to_multiset(),
        key_sorted(r@),
{
    let mut items = items;
    items.sort();
    items
}

/// Relies on `itertools::Itertools::dedup_with_count`: each run of equal strings once, with
/// the length of the run.
#[verifier::external_body]
fn count_runs(names: Vec<String>) -> (r: Vec<(usize, String)>)
    ensures
        counts_view(r@) == runs(names@),
{
    itertools::Itertools::dedup_with_count(names.into_iter()).collect()
}

/// The commits that drive the version and, for every other commit type, how many commits
/// have it.
pub fn bump_summary(commits: &Vec<ClassifiedCommit>) -> (r: BumpSummary)
    ensures
        r.bump_commits@ == bump_positions(commits@),
        run_total(counts_view(r.skipped@)) == skipped_count(commits@),
        exists|ks: Seq<(u64, String)>|
            ks.to_multiset() == keyed(skipped_names(commits@)).to_multiset() && key_sorted(ks)
                && #[trigger] runs(names_of(ks)) == counts_view(r.skipped@),
{
    let mut names: Vec<(u64, String)> = Vec::new();
    let mut bump: Vec<usize> = Vec::new();
    let mut i: usize = 0;
    while i < commits.len()
        invariant
            0 <= i <= commits@.len(),
            names@ == keyed(skipped_names(commits@.take(i as int))),
            bump@ == bump_positions(commits@.take(i as int)),
        decreases commits@.len() - i,
    {
        let ghost prev = commits@.take(i as int);
        let ghost next = commits@.take(i + 1);
        assert(next.drop_last() =~= prev);
        let c = &commits[i];
        if c.breaking {
            bump.push(i);
        } else {
            match &c.kind {
                CommitKind::Other(s) => {
                    let ghost before = skipped_names(prev);
                    let rank = rank_of(s);
                    names.push((rank, s.clone()));
                    assert(keyed(before.push(*s)) =~= keyed(before).push((rank, *s)));
                },
                _ => {
                    bump.push(i);
                },
            }
        }
        i += 1;
    }
    assert(commits@.take(commits@.len() as int) =~= commits@);
    let sorted = sort_keyed(names);
    let mut plain: Vec<String> = Vec::new();
    let mut k: usize = 0;
    while k < sorted.len()
        invariant
            0 <= k <= sorted@.len(),
            plain@ == names_of(sorted@.take(k as int)),
        decreases sorted@.len() - k,
    {
        plain.push(sorted[k].1.clone());
        assert(names_of(sorted@.take(k + 1)) =~= names_of(sorted@.take(k as int)).push(sorted@[k as int].1));
        k += 1;
    }
    assert(sorted@.take(sorted@.len() as int) =~= sorted@);
    let skipped = count_runs(plain);
    proof {
        lemma_runs_total(plain@);
        lemma_skipped_names_len(commits@);
        vstd::seq_lib::to_multiset_len(sorted@);
        vstd::seq_lib::to_multiset_len(names@);
        assert(plain@.len() == sorted@.len());
    }
    BumpSummary { skipped, bump_commits: bump }
}

} // verus!
