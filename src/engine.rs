use vstd::prelude::*;
use crate::bump::{IncrementCommand, auto_bump_spec, lemma_auto_bump_of_classified, next_version, next_version_for, raw_auto_bump};
use crate::commit::{ClassifiedCommit, RawCommit, classified, parsed_header};
use crate::error::BumpError;
use crate::range::{
    any_pattern_matches, pattern_scan, RevspecPattern, commit_range_bounds, position_of, range_bounds, scan_view, select_commits, select_range,
};
use crate::release::{
    Release, at_positions, classified_all, classify_commits, conforming,
    lemma_positions_pick_subrange, positions,
};
use crate::settings::{MonoRepoPackage, Settings, find_package, package_position};
use crate::tag::{Tag, copy_text, ensure_tag_is_greater_than_previous};
use crate::version::{BumpKind, Version, version_le, zero_version};

verus! {

/// A repository as a bump sees it: its history, oldest commit first, and its configuration.
#[derive(Debug)]
pub struct CocoGitto {
    pub history: Vec<RawCommit>,
    pub settings: Settings,
}

/// The commits of the range, oldest first; empty when the range is not in the history.
pub open spec fn range_slice(h: Seq<RawCommit>, p: RevspecPattern) -> Seq<RawCommit> {
    match range_bounds(h, p) {
        Some(b) => h.subrange(b.0, b.1),
        None => Seq::empty(),
    }
}

/// `rel` releases the conforming commits of `s` under `tag`.
pub open spec fn releases(rel: Release, tag: Tag, s: Seq<RawCommit>) -> bool {
    rel.version == tag && classified_all(conforming(s), rel.commits@)
}

/// The path globs of all packages, in configuration order.
pub open spec fn all_globs(ps: Seq<MonoRepoPackage>) -> Seq<String>
    decreases ps.len(),
{
    if ps.len() == 0 {
        Seq::empty()
    } else {
        all_globs(ps.drop_last()) + ps.last().path_globs@
    }
}

/// The commits of a range that a selection keeps, or its failure.
pub open spec fn selected_or_error(sel: Result<Seq<RawCommit>, Seq<char>>, rel: Result<Release, BumpError>, tag: Tag) -> bool {
    match sel {
        Err(e) => rel matches Err(BumpError::InvalidPattern { pattern }) && pattern@ == e,
        Ok(s) => rel matches Ok(r) && releases(r, tag, s),
    }
}

/// Copies of the strings, in order.
pub fn copy_strings(v: &Vec<String>) -> (r: Vec<String>)
    ensures
        r@ == v@,
{
    let mut out: Vec<String> = Vec::new();
    let mut i: usize = 0;
    while i < v.len()
        invariant
            0 <= i <= v@.len(),
            out@ == v@.take(i as int),
        decreases v@.len() - i,
    {
        out.push(v[i].clone());
        assert(v@.take(i + 1) =~= v@.take(i as int).push(v@[i as int]));
        i += 1;
    }
    assert(v@.take(v@.len() as int) =~= v@);
    out
}

/// The path globs of all packages, in configuration order.
pub fn collect_globs(ps: &Vec<MonoRepoPackage>) -> (r: Vec<String>)
    ensures
        r@ == all_globs(ps@),
{
    let mut out: Vec<String> = Vec::new();
    let mut i: usize = 0;
    while i < ps.len()
        invariant
            0 <= i <= ps@.len(),
            out@ == all_globs(ps@.take(i as int)),
        decreases ps@.len() - i,
    {
        let globs = copy_strings(&ps[i].path_globs);
        let ghost before = out@;
        let mut j: usize = 0;
        while j < globs.len()
            invariant
                0 <= j <= globs@.len(),
                out@ == before + globs@.take(j as int),
            decreases globs@.len() - j,
        {
            out.push(globs[j].clone());
            assert(globs@.take(j + 1) =~= globs@.take(j as int).push(globs@[j as int]));
            assert(before + globs@.take(j + 1) =~= (before + globs@.take(j as int)).push(globs@[j as int]));
            j += 1;
        }
        assert(globs@.take(globs@.len() as int) =~= globs@);
        assert(ps@.take(i + 1).drop_last() =~= ps@.take(i as int));
        i += 1;
    }
    assert(ps@.take(ps@.len() as int) =~= ps@);
    out
}

/// The version a bump from `current` reaches under `inc`, where `auto` is the bump that the
/// commits warrant, once checked to exceed `current`.
pub open spec fn bump_tag_for(current: Tag, auto: Option<BumpKind>, inc: IncrementCommand) -> Result<
    Version,
    BumpError,
> {
    match next_version_for(current.version, auto, inc) {
        Err(e) => Err(e),
        Ok(v) => if version_le(v, current.version) {
            Err(BumpError::Ordering { current: current.version, next: v })
        } else {
            Ok(v)
        },
    }
}

/// The version a bump from `current` reaches under `inc`, once checked to exceed `current`.
pub open spec fn bump_tag_spec(current: Tag, cs: Seq<ClassifiedCommit>, inc: IncrementCommand) -> Result<
    Version,
    BumpError,
> {
    bump_tag_for(current, auto_bump_spec(cs), inc)
}

/// The range from `tag` to the head of `h`, as `get_revspec_for_tag` builds it; `None` when it
/// has none.
pub open spec fn revspec_for(h: Seq<RawCommit>, tag: Tag) -> Option<RevspecPattern> {
    if h.len() == 0 {
        None
    } else if tag.version == zero_version() {
        Some(RevspecPattern { from: h[0].oid, to: h.last().oid, from_inclusive: true })
    } else if tag.oid is Some {
        Some(RevspecPattern { from: tag.oid->0, to: h.last().oid, from_inclusive: false })
    } else {
        None
    }
}

/// The commits of `h` from `tag` to the head that `globs` selects (`want` as in
/// `select_commits`); `None` when the range or the selection fails.
pub open spec fn scope_commits(h: Seq<RawCommit>, tag: Tag, globs: Seq<String>, want: bool) -> Option<
    Seq<RawCommit>,
> {
    match revspec_for(h, tag) {
        None => None,
        Some(p) => match range_bounds(h, p) {
            None => None,
            Some(b) => match select_commits(h.subrange(b.0, b.1), globs, want) {
                Ok(s) => Some(s),
                Err(_) => None,
            },
        },
    }
}

/// The automatic bump of the package named `name` from `cur`: its conforming commits and its
/// new version (`None` when it has nothing to release); `None` on failure.
pub open spec fn package_step(h: Seq<RawCommit>, pkgs: Seq<MonoRepoPackage>, cur: Tag, name: String) -> Option<
    (Seq<RawCommit>, Option<Version>),
> {
    match package_position(pkgs, name@) {
        None => None,
        Some(j) => match scope_commits(h, cur, pkgs[j].path_globs@, true) {
            None => None,
            Some(s) => match bump_tag_for(cur, raw_auto_bump(conforming(s)), IncrementCommand::AutoPackage(name)) {
                Ok(v) => Some((conforming(s), Some(v))),
                Err(BumpError::NothingToBump) => Some((conforming(s), None)),
                Err(_) => None,
            },
        },
    }
}

/// The first `n` package steps, in configuration order: the conforming commits of all of them,
/// in order, and each new version; `None` as soon as one fails.
pub open spec fn packages_plan(h: Seq<RawCommit>, pkgs: Seq<MonoRepoPackage>, current: Seq<Tag>, n: int) -> Option<
    (Seq<RawCommit>, Seq<Option<Version>>),
>
    decreases n,
{
    if n <= 0 {
        Some((Seq::empty(), Seq::empty()))
    } else {
        match packages_plan(h, pkgs, current, n - 1) {
            None => None,
            Some(acc) => match package_step(h, pkgs, current[n - 1], pkgs[n - 1].name) {
                None => None,
                Some(step) => Some((acc.0 + step.0, acc.1.push(step.1))),
            },
        }
    }
}

/// A monorepo bump: every package step, then the aggregate version, bumped from `global` under
/// `inc` over the commits of all packages followed by those that touch no package.
pub open spec fn monorepo_plan_spec(
    h: Seq<RawCommit>,
    pkgs: Seq<MonoRepoPackage>,
    current: Seq<Tag>,
    global: Tag,
    inc: IncrementCommand,
) -> Option<(Seq<Option<Version>>, Version)> {
    match packages_plan(h, pkgs, current, pkgs.len() as int) {
        None => None,
        Some(acc) => match scope_commits(h, global, all_globs(pkgs), false) {
            None => None,
            Some(g) => match bump_tag_for(global, raw_auto_bump(acc.0 + conforming(g)), inc) {
                Ok(v) => Some((acc.1, v)),
                Err(_) => None,
            },
        },
    }
}

/// Classifications of two sequences join into the classification of their concatenation.
pub proof fn lemma_classified_concat(a: Seq<RawCommit>, x: Seq<ClassifiedCommit>, b: Seq<RawCommit>, y: Seq<ClassifiedCommit>)
    requires
        classified_all(a, x),
        classified_all(b, y),
    ensures
        classified_all(a + b, x + y),
{
    assert forall|k: int| 0 <= k < (x + y).len() implies classified(
        #[trigger] (a + b)[k],
        (x + y)[k],
        parsed_header((a + b)[k].message@)->0,
    ) by {
        if k < a.len() {
            assert((a + b)[k] == a[k]);
            assert(classified(a[k], x[k], parsed_header(a[k].message@)->0));
        } else {
            assert((a + b)[k] == b[k - a.len()]);
            assert(classified(b[k - a.len()], y[k - a.len()], parsed_header(b[k - a.len()].message@)->0));
        }
    }
}

/// Computes the tag that follows `current` for the commits of its scope under `inc`, and
/// rejects it unless it exceeds `current`.
pub fn bump_tag(current: &Tag, commits: &Vec<ClassifiedCommit>, inc: &IncrementCommand) -> (r: Result<
    Tag,
    BumpError,
>)
    ensures
        bump_tag_spec(*current, commits@, *inc) is Ok <==> r is Ok,
        r matches Ok(t) ==> bump_tag_spec(*current, commits@, *inc) == Ok::<Version, BumpError>(t.version)
            && t.package == current.package && t.prefix == current.prefix && t.oid is None,
        r matches Err(e) ==> bump_tag_spec(*current, commits@, *inc) == Err::<Version, BumpError>(e),
{
    match next_version(&current.version, commits, inc) {
        Err(e) => Err(e),
        Ok(v) => {
            let next = current.with_version(v);
            match ensure_tag_is_greater_than_previous(current, &next) {
                Err(e) => Err(e),
                Ok(()) => Ok(next),
            }
        },
    }
}

/// A bump that is accepted always moves strictly forward, also when the version was given
/// explicitly.
pub proof fn lemma_accepted_bump_advances(current: Tag, cs: Seq<ClassifiedCommit>, inc: IncrementCommand)
    ensures
        bump_tag_spec(current, cs, inc) matches Ok(v) ==> !version_le(v, current.version),
{
}

/// An explicit version that does not exceed the current one is rejected with the comparison.
pub proof fn lemma_explicit_downgrade_rejected(current: Tag, cs: Seq<ClassifiedCommit>, v: Version)
    requires
        version_le(v, current.version),
    ensures
        bump_tag_spec(current, cs, IncrementCommand::Manual(v)) == Err::<Version, BumpError>(
            BumpError::Ordering { current: current.version, next: v },
        ),
{
}

/// The tags that a monorepo bump creates: one per package that has something to release, in
/// configuration order, and the aggregate tag.
#[derive(Debug)]
pub struct MonorepoPlan {
    pub package_tags: Vec<Option<Tag>>,
    pub aggregate: Tag,
}

/// A planned package tag carries the planned version, the package's name and the configured
/// prefix: `<package>-<prefix><semver>`.
pub open spec fn tag_matches(t: Option<Tag>, v: Option<Version>, package: String, prefix: Option<String>) -> bool {
    match t {
        None => v is None,
        Some(t) => v == Some(t.version) && t.package == Some(package) && t.prefix == prefix && t.oid is None,
    }
}

/// A plan holds the versions of `spec`: one optional tag per package, and the aggregate tag.
/// The aggregate tag is in the repository-wide form `<prefix><semver>`.
pub open spec fn plan_matches(
    plan: MonorepoPlan,
    spec: (Seq<Option<Version>>, Version),
    pkgs: Seq<MonoRepoPackage>,
    prefix: Option<String>,
) -> bool {
    &&& plan.package_tags@.len() == pkgs.len()
    &&& spec.0.len() == pkgs.len()
    &&& forall|k: int|
        0 <= k < pkgs.len() ==> tag_matches(#[trigger] plan.package_tags@[k], spec.0[k], pkgs[k].name, prefix)
    &&& plan.aggregate.version == spec.1
    &&& plan.aggregate.package is None
    &&& plan.aggregate.prefix == prefix
    &&& plan.aggregate.oid is None
}

/// Once a package step fails, every longer plan fails.
proof fn lemma_plan_fails_onward(h: Seq<RawCommit>, pkgs: Seq<MonoRepoPackage>, current: Seq<Tag>, m: int, n: int)
    requires
        0 <= m <= n,
        packages_plan(h, pkgs, current, m) is None,
    ensures
        packages_plan(h, pkgs, current, n) is None,
    decreases n - m,
{
    if m < n {
        lemma_plan_fails_onward(h, pkgs, current, m, n - 1);
    }
}

/// Appends the commits, in order.
fn append_commits(out: &mut Vec<ClassifiedCommit>, more: Vec<ClassifiedCommit>)
    ensures
        final(out)@ == old(out)@ + more@,
{
    let mut more = more;
    out.append(&mut more);
}

/// With commit ids distinct, the range of the zero tag, from the first commit included to the
/// head, is the whole history: the first commit is part of it.
pub proof fn lemma_zero_tag_range_is_whole_history(h: Seq<RawCommit>)
    requires
        h.len() > 0,
        forall|i: int, j: int| 0 <= i < j < h.len() ==> (#[trigger] h[i]).oid@ != (#[trigger] h[j]).oid@,
    ensures
        range_slice(
            h,
            RevspecPattern { from: h[0].oid, to: h.last().oid, from_inclusive: true },
        ) == h,
{
    let last = h.len() - 1;
    assert(position_of(h, h[0].oid@) == Some(0int));
    assert(h[last].oid@ == h.last().oid@);
    assert(position_of(h, h.last().oid@) == Some(last));
    assert(h.subrange(0, h.len() as int) =~= h);
}

impl CocoGitto {
    /// The automatic bump of the package at position `i`, from its current tag `cur`: its new
    /// tag (`None` when it has nothing to release) and its classified commits.
    #[verifier::rlimit(60)]
    fn plan_package(&self, i: usize, cur: &Tag) -> (r: Result<(Option<Tag>, Vec<ClassifiedCommit>), BumpError>)
        requires
            i < self.settings.packages@.len(),
        ensures
            r is Ok <==> package_step(self.history@, self.settings.packages@, *cur, self.settings.packages@[i as int].name) is Some,
            r matches Ok(res) ==> ({
                let step = package_step(self.history@, self.settings.packages@, *cur, self.settings.packages@[i as int].name)->0;
                tag_matches(res.0, step.1, self.settings.packages@[i as int].name, self.settings.tag_prefix)
                    && classified_all(step.0, res.1@)
            }),
    {
        let ghost h = self.history@;
        let ghost pkgs = self.settings.packages@;
        let pattern = match self.get_revspec_for_tag(cur) {
            Ok(p) => p,
            Err(e) => {
                return Err(e);
            },
        };
        assert(revspec_for(h, *cur) == Some(pattern));
        let release = match self.get_package_changelog_with_target_version(
            pattern,
            Tag::zero(),
            self.settings.packages[i].name.as_str(),
        ) {
            Ok(rel) => rel,
            Err(e) => {
                return Err(e);
            },
        };
        let ghost j = package_position(pkgs, pkgs[i as int].name@)->0;
        let ghost sel = scope_commits(h, *cur, pkgs[j].path_globs@, true)->0;
        assert(classified_all(conforming(sel), release.commits@));
        let package_inc = IncrementCommand::AutoPackage(self.settings.packages[i].name.clone());
        proof {
            lemma_auto_bump_of_classified(conforming(sel), release.commits@);
        }
        match bump_tag(cur, &release.commits, &package_inc) {
            Ok(t) => {
                let tag = Tag {
                    package: Some(self.settings.packages[i].name.clone()),
                    prefix: copy_text(&self.settings.tag_prefix),
                    version: t.version,
                    oid: None,
                };
                Ok((Some(tag), release.commits))
            },
            Err(BumpError::NothingToBump) => Ok((None, release.commits)),
            Err(e) => Err(e),
        }
    }

    /// Plans a monorepo bump: each package, in configuration order, is bumped automatically
    /// from its current tag `current[i]` over the commits that touch it (a package with nothing
    /// to release gets no tag); then the aggregate tag follows `global` under `inc`, over the
    /// commits of all packages and those that touch no package. The first failure aborts the
    /// whole plan.
    #[verifier::rlimit(60)]
    pub fn plan_monorepo_bump(&self, current: &Vec<Tag>, global: &Tag, inc: &IncrementCommand) -> (r: Result<
        MonorepoPlan,
        BumpError,
    >)
        requires
            current@.len() == self.settings.packages@.len(),
        ensures
            r is Ok <==> monorepo_plan_spec(self.history@, self.settings.packages@, current@, *global, *inc) is Some,
            r matches Ok(plan) ==> plan_matches(
                plan,
                monorepo_plan_spec(self.history@, self.settings.packages@, current@, *global, *inc)->0,
                self.settings.packages@,
                self.settings.tag_prefix,
            ),
    {
        let ghost h = self.history@;
        let ghost pkgs = self.settings.packages@;
        let mut tags: Vec<Option<Tag>> = Vec::new();
        let mut all: Vec<ClassifiedCommit> = Vec::new();
        let ghost mut acc_raw: Seq<RawCommit> = Seq::empty();
        let ghost mut vs: Seq<Option<Version>> = Seq::empty();
        let mut i: usize = 0;
        while i < self.settings.packages.len()
            invariant
                0 <= i <= pkgs.len(),
                h == self.history@,
                pkgs == self.settings.packages@,
                current@.len() == pkgs.len(),
                packages_plan(h, pkgs, current@, i as int) == Some((acc_raw, vs)),
                classified_all(acc_raw, all@),
                tags@.len() == i,
                vs.len() == i,
                forall|k: int| 0 <= k < i ==> tag_matches(#[trigger] tags@[k], vs[k], pkgs[k].name, self.settings.tag_prefix),
            decreases pkgs.len() - i,
        {
            let (tag, commits) = match self.plan_package(i, &current[i]) {
                Ok(res) => res,
                Err(e) => {
                    proof {
                        lemma_plan_fails_onward(h, pkgs, current@, i as int + 1, pkgs.len() as int);
                    }
                    return Err(e);
                },
            };
            proof {
                let step = package_step(h, pkgs, current@[i as int], pkgs[i as int].name)->0;
                lemma_classified_concat(acc_raw, all@, step.0, commits@);
                acc_raw = acc_raw + step.0;
                vs = vs.push(step.1);
            }
            let ghost before = tags@;
            tags.push(tag);
            append_commits(&mut all, commits);
            assert forall|k: int| 0 <= k < i + 1 implies tag_matches(#[trigger] tags@[k], vs[k], pkgs[k].name, self.settings.tag_prefix) by {
                if k < i {
                    assert(tags@[k] == before[k]);
                }
            }
            i += 1;
        }
        let pattern = match self.get_revspec_for_tag(global) {
            Ok(p) => p,
            Err(e) => {
                return Err(e);
            },
        };
        assert(revspec_for(h, *global) == Some(pattern));
        let release = match self.get_monorepo_global_changelog_with_target_version(pattern, Tag::zero()) {
            Ok(rel) => rel,
            Err(e) => {
                return Err(e);
            },
        };
        let ghost g = scope_commits(h, *global, all_globs(pkgs), false)->0;
        proof {
            lemma_classified_concat(acc_raw, all@, conforming(g), release.commits@);
        }
        append_commits(&mut all, release.commits);
        proof {
            lemma_auto_bump_of_classified(acc_raw + conforming(g), all@);
        }
        match bump_tag(global, &all, inc) {
            Ok(t) => {
                let aggregate = Tag {
                    package: None,
                    prefix: copy_text(&self.settings.tag_prefix),
                    version: t.version,
                    oid: None,
                };
                Ok(MonorepoPlan { package_tags: tags, aggregate })
            },
            Err(e) => Err(e),
        }
    }

    /// The repository-wide tag that follows `current` for the commits of its range under `inc`,
    /// named `<prefix><semver>` with the configured prefix; rejected unless it exceeds `current`.
    pub fn next_tag(&self, current: &Tag, commits: &Vec<ClassifiedCommit>, inc: &IncrementCommand) -> (r: Result<
        Tag,
        BumpError,
    >)
        ensures
            bump_tag_spec(*current, commits@, *inc) is Ok <==> r is Ok,
            r matches Ok(t) ==> bump_tag_spec(*current, commits@, *inc) == Ok::<Version, BumpError>(t.version)
                && t.package is None && t.prefix == self.settings.tag_prefix && t.oid is None,
            r matches Err(e) ==> bump_tag_spec(*current, commits@, *inc) == Err::<Version, BumpError>(e),
    {
        match bump_tag(current, commits, inc) {
            Ok(t) => Ok(Tag { package: None, prefix: copy_text(&self.settings.tag_prefix), version: t.version, oid: None }),
            Err(e) => Err(e),
        }
    }

    /// Checks, before any version is computed, that the working tree has no changes
    /// (`changes` lists them) and, when an allow-list is configured, that a branch is checked out
    /// and matches one of its patterns.
    pub fn pre_bump_checks(&self, changes: Vec<String>, branch: Option<String>) -> (r: Result<
        (),
        BumpError,
    >)
        ensures
            changes@.len() > 0 ==> r == Err::<(), BumpError>(BumpError::DirtyTree { changes }),
            changes@.len() == 0 && self.settings.branch_whitelist@.len() == 0 ==> r is Ok,
            changes@.len() == 0 && self.settings.branch_whitelist@.len() > 0 && branch is None
                ==> (r matches Err(BumpError::NoBranch { patterns })
                && patterns@ == self.settings.branch_whitelist@),
            changes@.len() == 0 && self.settings.branch_whitelist@.len() > 0 && branch is Some
                ==> match pattern_scan(self.settings.branch_whitelist@, branch->0@, 0) {
                Ok(true) => r is Ok,
                Ok(false) => r matches Err(BumpError::BranchNotAllowed { patterns, branch: b })
                    && patterns@ == self.settings.branch_whitelist@ && b == branch->0,
                Err(e) => r matches Err(BumpError::InvalidPattern { pattern }) && pattern@ == e,
            },
    {
        if changes.len() > 0 {
            return Err(BumpError::DirtyTree { changes });
        }
        if self.settings.branch_whitelist.len() == 0 {
            return Ok(());
        }
        match branch {
            None => Err(BumpError::NoBranch { patterns: copy_strings(&self.settings.branch_whitelist) }),
            Some(b) => {
                match any_pattern_matches(&self.settings.branch_whitelist, b.as_str()) {
                    Err(e) => Err(BumpError::InvalidPattern { pattern: e }),
                    Ok(true) => Ok(()),
                    Ok(false) => Err(
                        BumpError::BranchNotAllowed {
                            patterns: copy_strings(&self.settings.branch_whitelist),
                            branch: b,
                        },
                    ),
                }
            },
        }
    }

    /// The range from `tag` to the head of the history: from the first commit, included, when
    /// the tag is the zero tag; else from the commit the tag points at, excluded. A non-zero tag
    /// that points at no commit has no range.
    pub fn get_revspec_for_tag(&self, tag: &Tag) -> (r: Result<RevspecPattern, BumpError>)
        ensures
            self.history@.len() == 0 ==> r matches Err(BumpError::EmptyHistory),
            self.history@.len() > 0 && tag.version != zero_version() && tag.oid is None
                ==> r matches Err(BumpError::UnknownRevision),
            self.history@.len() > 0 && tag.version == zero_version() ==> r == Ok::<RevspecPattern, BumpError>(
                RevspecPattern {
                    from: self.history@[0].oid,
                    to: self.history@.last().oid,
                    from_inclusive: true,
                },
            ),
            self.history@.len() > 0 && tag.version != zero_version() && tag.oid is Some ==> r == Ok::<RevspecPattern, BumpError>(
                RevspecPattern {
                    from: tag.oid->0,
                    to: self.history@.last().oid,
                    from_inclusive: false,
                },
            ),
    {
        let n = self.history.len();
        if n == 0 {
            return Err(BumpError::EmptyHistory);
        }
        let head = self.history[n - 1].oid.clone();
        if tag.is_zero() {
            Ok(RevspecPattern { from: self.history[0].oid.clone(), to: head, from_inclusive: true })
        } else {
            match &tag.oid {
                Some(oid) => Ok(RevspecPattern { from: oid.clone(), to: head, from_inclusive: false }),
                None => Err(BumpError::UnknownRevision),
            }
        }
    }

    /// The release of the commits of `pattern` under `tag`, which need not exist yet.
    pub fn get_changelog_with_target_version(&self, pattern: RevspecPattern, tag: Tag) -> (r:
        Result<Release, BumpError>)
        ensures
            range_bounds(self.history@, pattern) is None ==> r matches Err(BumpError::UnknownRevision),
            range_bounds(self.history@, pattern) matches Some(b) ==> r matches Ok(rel) && releases(
                rel,
                tag,
                self.history@.subrange(b.0, b.1),
            ),
    {
        match commit_range_bounds(&self.history, &pattern) {
            None => Err(BumpError::UnknownRevision),
            Some((start, end)) => {
                let idx = positions(start, end);
                proof {
                    lemma_positions_pick_subrange(self.history@, idx@, start as int, end as int);
                }
                let commits = classify_commits(&self.history, &idx);
                Ok(Release { version: tag, commits })
            },
        }
    }

    /// The release of the commits of `pattern` that touch a path of `package`, under `tag`.
    pub fn get_package_changelog_with_target_version(
        &self,
        pattern: RevspecPattern,
        tag: Tag,
        package: &str,
    ) -> (r: Result<Release, BumpError>)
        ensures
            range_bounds(self.history@, pattern) is None ==> r matches Err(BumpError::UnknownRevision),
            range_bounds(self.history@, pattern) is Some && package_position(self.settings.packages@, package@) is None
                ==> (r matches Err(BumpError::UnknownPackage { name }) && name@ == package@),
            range_bounds(self.history@, pattern) is Some && package_position(self.settings.packages@, package@) is Some
                ==> selected_or_error(
                select_commits(
                    range_slice(self.history@, pattern),
                    self.settings.packages@[package_position(self.settings.packages@, package@)->0].path_globs@,
                    true,
                ),
                r,
                tag,
            ),
    {
        match commit_range_bounds(&self.history, &pattern) {
            None => Err(BumpError::UnknownRevision),
            Some((start, end)) => {
                match find_package(&self.settings.packages, package) {
                    None => Err(BumpError::UnknownPackage { name: String::from_str(package) }),
                    Some(p) => {
                        match select_range(&self.history, start, end, &self.settings.packages[p].path_globs, true) {
                            Err(e) => Err(BumpError::InvalidPattern { pattern: e }),
                            Ok(idx) => {
                                let commits = classify_commits(&self.history, &idx);
                                Ok(Release { version: tag, commits })
                            },
                        }
                    },
                }
            },
        }
    }

    /// The release of the commits of `pattern` that touch a path outside every package, under
    /// `tag`.
    pub fn get_monorepo_global_changelog_with_target_version(
        &self,
        pattern: RevspecPattern,
        tag: Tag,
    ) -> (r: Result<Release, BumpError>)
        ensures
            range_bounds(self.history@, pattern) is None ==> r matches Err(BumpError::UnknownRevision),
            range_bounds(self.history@, pattern) matches Some(b) ==> selected_or_error(
                select_commits(self.history@.subrange(b.0, b.1), all_globs(self.settings.packages@), false),
                r,
                tag,
            ),
    {
        match commit_range_bounds(&self.history, &pattern) {
            None => Err(BumpError::UnknownRevision),
            Some((start, end)) => {
                let globs = collect_globs(&self.settings.packages);
                match select_range(&self.history, start, end, &globs, false) {
                    Err(e) => Err(BumpError::InvalidPattern { pattern: e }),
                    Ok(idx) => {
                        let commits = classify_commits(&self.history, &idx);
                        Ok(Release { version: tag, commits })
                    },
                }
            },
        }
    }
}

} // verus!
