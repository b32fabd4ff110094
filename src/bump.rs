use vstd::prelude::*;
use crate::commit::{ClassifiedCommit, RawCommit, classified, parsed_header};
use crate::release::classified_all;
use crate::error::BumpError;
use crate::version::{BumpKind, Version, bump_fits, bumped, zero_version};

verus! {

/// How the next version is chosen. Exactly one governs a bump.
#[derive(Debug)]
pub enum IncrementCommand {
    /// Use this version as it is.
    Manual(Version),
    /// Derive the bump from the commits.
    Auto,
    /// Derive the bump from the commits of the named package.
    AutoPackage(String),
    Major,
    Minor,
    Patch,
}

pub open spec fn has_breaking(cs: Seq<ClassifiedCommit>) -> bool {
    exists|i: int| 0 <= i < cs.len() && #[trigger] cs[i].breaking
}

pub open spec fn has_feature(cs: Seq<ClassifiedCommit>) -> bool {
    exists|i: int| 0 <= i < cs.len() && (#[trigger] cs[i]).kind.is_feature()
}

pub open spec fn has_fix(cs: Seq<ClassifiedCommit>) -> bool {
    exists|i: int| 0 <= i < cs.len() && (#[trigger] cs[i]).kind.is_fix()
}

/// The largest bump that the commits warrant: a breaking commit gives major, else a feature
/// gives minor, else a fix gives patch; other commits warrant none.
pub open spec fn auto_bump_spec(cs: Seq<ClassifiedCommit>) -> Option<BumpKind> {
    if has_breaking(cs) {
        Some(BumpKind::Major)
    } else if has_feature(cs) {
        Some(BumpKind::Minor)
    } else if has_fix(cs) {
        Some(BumpKind::Patch)
    } else {
        None
    }
}

/// Increments `kind` of `current`, or fails when that part is at its largest value.
pub open spec fn checked_bump(current: Version, kind: BumpKind) -> Result<Version, BumpError> {
    if bump_fits(current, kind) {
        Ok(bumped(current, kind))
    } else {
        Err(BumpError::VersionOverflow)
    }
}

/// The version that follows `current` under `inc`, where `auto` is the bump that the commits
/// of the scope warrant.
pub open spec fn next_version_for(
    current: Version,
    auto: Option<BumpKind>,
    inc: IncrementCommand,
) -> Result<Version, BumpError> {
    match inc {
        IncrementCommand::Manual(v) => Ok(v),
        IncrementCommand::Major => checked_bump(current, BumpKind::Major),
        IncrementCommand::Minor => checked_bump(current, BumpKind::Minor),
        IncrementCommand::Patch => checked_bump(current, BumpKind::Patch),
        _ => match auto {
            Some(kind) => checked_bump(current, kind),
            None => Err(BumpError::NothingToBump),
        },
    }
}

/// The version that follows `current` under `inc`, for the commits `cs` of the scope.
pub open spec fn next_version_spec(
    current: Version,
    cs: Seq<ClassifiedCommit>,
    inc: IncrementCommand,
) -> Result<Version, BumpError> {
    next_version_for(current, auto_bump_spec(cs), inc)
}

/// What the parser reads as the type name of a message.
pub open spec fn header_type(m: Seq<char>) -> Seq<char> {
    let h = parsed_header(m)->0;
    h.0
}

/// What the parser reads as the breaking flag of a message.
pub open spec fn header_breaking(m: Seq<char>) -> bool {
    let h = parsed_header(m)->0;
    h.2
}

/// The bump that conforming raw commits warrant, read from their parsed headers.
pub open spec fn raw_auto_bump(rs: Seq<RawCommit>) -> Option<BumpKind> {
    if exists|k: int| 0 <= k < rs.len() && header_breaking((#[trigger] rs[k]).message@) {
        Some(BumpKind::Major)
    } else if exists|k: int| 0 <= k < rs.len() && header_type((#[trigger] rs[k]).message@) == "feat"@ {
        Some(BumpKind::Minor)
    } else if exists|k: int| 0 <= k < rs.len() && header_type((#[trigger] rs[k]).message@) == "fix"@ {
        Some(BumpKind::Patch)
    } else {
        None
    }
}

/// Classified commits warrant the bump that their parsed headers warrant.
pub proof fn lemma_auto_bump_of_classified(rs: Seq<RawCommit>, cs: Seq<ClassifiedCommit>)
    requires
        classified_all(rs, cs),
    ensures
        auto_bump_spec(cs) == raw_auto_bump(rs),
{
    reveal_strlit("feat");
    reveal_strlit("fix");
    assert("feat"@ != "fix"@) by {
        assert("feat"@.len() != "fix"@.len());
    }
    assert(has_breaking(cs) == exists|k: int| 0 <= k < rs.len() && header_breaking((#[trigger] rs[k]).message@)) by {
        if has_breaking(cs) {
            let k = choose|k: int| 0 <= k < cs.len() && #[trigger] cs[k].breaking;
            assert(classified(rs[k], cs[k], parsed_header(rs[k].message@)->0));
        }
        if exists|k: int| 0 <= k < rs.len() && header_breaking((#[trigger] rs[k]).message@) {
            let k = choose|k: int| 0 <= k < rs.len() && header_breaking((#[trigger] rs[k]).message@);
            assert(classified(rs[k], cs[k], parsed_header(rs[k].message@)->0));
            assert(cs[k].breaking);
        }
    }
    assert(has_feature(cs) == exists|k: int| 0 <= k < rs.len() && header_type((#[trigger] rs[k]).message@) == "feat"@) by {
        if has_feature(cs) {
            let k = choose|k: int| 0 <= k < cs.len() && (#[trigger] cs[k]).kind.is_feature();
            assert(classified(rs[k], cs[k], parsed_header(rs[k].message@)->0));
        }
        if exists|k: int| 0 <= k < rs.len() && header_type((#[trigger] rs[k]).message@) == "feat"@ {
            let k = choose|k: int| 0 <= k < rs.len() && header_type((#[trigger] rs[k]).message@) == "feat"@;
            assert(classified(rs[k], cs[k], parsed_header(rs[k].message@)->0));
            assert(cs[k].kind.is_feature());
        }
    }
    assert(has_fix(cs) == exists|k: int| 0 <= k < rs.len() && header_type((#[trigger] rs[k]).message@) == "fix"@) by {
        if has_fix(cs) {
            let k = choose|k: int| 0 <= k < cs.len() && (#[trigger] cs[k]).kind.is_fix();
            assert(classified(rs[k], cs[k], parsed_header(rs[k].message@)->0));
        }
        if exists|k: int| 0 <= k < rs.len() && header_type((#[trigger] rs[k]).message@) == "fix"@ {
            let k = choose|k: int| 0 <= k < rs.len() && header_type((#[trigger] rs[k]).message@) == "fix"@;
            assert(classified(rs[k], cs[k], parsed_header(rs[k].message@)->0));
            assert(cs[k].kind.is_fix());
        }
    }
}

/// The largest bump that the commits warrant, if any.
pub fn auto_bump(commits: &Vec<ClassifiedCommit>) -> (r: Option<BumpKind>)
    ensures
        r == auto_bump_spec(commits@),
{
    let mut breaking = false;
    let mut feature = false;
    let mut fix = false;
    let mut i: usize = 0;
    while i < commits.len()
        invariant
            0 <= i <= commits@.len(),
            breaking == has_breaking(commits@.take(i as int)),
            feature == has_feature(commits@.take(i as int)),
            fix == has_fix(commits@.take(i as int)),
        decreases commits@.len() - i,
    {
        let c = &commits[i];
        let ghost prev = commits@.take(i as int);
        let ghost next = commits@.take(i + 1);
        assert(next =~= prev.push(commits@[i as int]));
        if c.breaking {
            breaking = true;
        }
        match c.kind {
            crate::commit::CommitKind::Feature => {
                feature = true;
            },
            crate::commit::CommitKind::BugFix => {
                fix = true;
            },
            _ => {},
        }
        proof {
            assert forall|k: int| 0 <= k < i implies #[trigger] next[k] == prev[k] by {}
            assert(next[i as int] == commits@[i as int]);
            if has_breaking(prev) {
                let k = choose|k: int| 0 <= k < prev.len() && #[trigger] prev[k].breaking;
                assert(next[k].breaking);
            }
            if has_breaking(next) {
                let k = choose|k: int| 0 <= k < next.len() && #[trigger] next[k].breaking;
                if k < i { assert(prev[k].breaking); }
            }
            if has_feature(prev) {
                let k = choose|k: int| 0 <= k < prev.len() && (#[trigger] prev[k]).kind.is_feature();
                assert(next[k].kind.is_feature());
            }
            if has_feature(next) {
                let k = choose|k: int| 0 <= k < next.len() && (#[trigger] next[k]).kind.is_feature();
                if k < i { assert(prev[k].kind.is_feature()); }
            }
            if has_fix(prev) {
                let k = choose|k: int| 0 <= k < prev.len() && (#[trigger] prev[k]).kind.is_fix();
                assert(next[k].kind.is_fix());
            }
            if has_fix(next) {
                let k = choose|k: int| 0 <= k < next.len() && (#[trigger] next[k]).kind.is_fix();
                if k < i { assert(prev[k].kind.is_fix()); }
            }
        }
        i += 1;
    }
    assert(commits@.take(commits@.len() as int) =~= commits@);
    if breaking {
        Some(BumpKind::Major)
    } else if feature {
        Some(BumpKind::Minor)
    } else if fix {
        Some(BumpKind::Patch)
    } else {
        None
    }
}

/// Computes the next version from the current one, the commits of the scope and the
/// increment instruction.
pub fn next_version(current: &Version, commits: &Vec<ClassifiedCommit>, inc: &IncrementCommand) -> (r:
    Result<Version, BumpError>)
    ensures
        r == next_version_spec(*current, commits@, *inc),
{
    let kind = match inc {
        IncrementCommand::Manual(v) => {
            return Ok(v.duplicate());
        },
        IncrementCommand::Major => BumpKind::Major,
        IncrementCommand::Minor => BumpKind::Minor,
        IncrementCommand::Patch => BumpKind::Patch,
        _ => match auto_bump(commits) {
            Some(k) => k,
            None => {
                return Err(BumpError::NothingToBump);
            },
        },
    };
    match current.bump(kind) {
        Some(v) => Ok(v),
        None => Err(BumpError::VersionOverflow),
    }
}

/// Automatic resolution over commits holding a breaking commit gives a major bump, whatever
/// else is there.
pub proof fn lemma_breaking_gives_major(current: Version, cs: Seq<ClassifiedCommit>, i: int)
    requires
        0 <= i < cs.len(),
        cs[i].breaking,
        current.major < u64::MAX,
    ensures
        auto_bump_spec(cs) == Some(BumpKind::Major),
        next_version_spec(current, cs, IncrementCommand::Auto) == Ok::<Version, BumpError>(
            Version { major: (current.major + 1) as u64, minor: 0, patch: 0, pre: None },
        ),
{
}

/// Automatic resolution over commits with no breaking commit and a feature gives a minor bump.
pub proof fn lemma_feature_gives_minor(current: Version, cs: Seq<ClassifiedCommit>, i: int)
    requires
        0 <= i < cs.len(),
        cs[i].kind.is_feature(),
        forall|j: int| 0 <= j < cs.len() ==> !(#[trigger] cs[j]).breaking,
        current.minor < u64::MAX,
    ensures
        auto_bump_spec(cs) == Some(BumpKind::Minor),
        next_version_spec(current, cs, IncrementCommand::Auto) == Ok::<Version, BumpError>(
            Version { major: current.major, minor: (current.minor + 1) as u64, patch: 0, pre: None },
        ),
{
}

/// Automatic resolution over a non-empty sequence of non-breaking fix commits gives a patch
/// bump.
pub proof fn lemma_fixes_give_patch(current: Version, cs: Seq<ClassifiedCommit>)
    requires
        cs.len() > 0,
        forall|j: int| 0 <= j < cs.len() ==> (#[trigger] cs[j]).kind.is_fix() && !cs[j].breaking,
        current.patch < u64::MAX,
    ensures
        auto_bump_spec(cs) == Some(BumpKind::Patch),
        next_version_spec(current, cs, IncrementCommand::Auto) == Ok::<Version, BumpError>(
            Version { major: current.major, minor: current.minor, patch: (current.patch + 1) as u64, pre: None },
        ),
{
    assert(cs[0].kind.is_fix());
}

/// Automatic resolution over commits with no breaking, feature or fix commit reports that
/// there is nothing to bump.
pub proof fn lemma_nothing_to_bump(current: Version, cs: Seq<ClassifiedCommit>)
    requires
        forall|j: int|
            0 <= j < cs.len() ==> !(#[trigger] cs[j]).breaking && !cs[j].kind.is_feature()
                && !cs[j].kind.is_fix(),
    ensures
        auto_bump_spec(cs).is_none(),
        next_version_spec(current, cs, IncrementCommand::Auto) == Err::<Version, BumpError>(
            BumpError::NothingToBump,
        ),
{
}

/// From the zero baseline, a single non-breaking feature commit gives `0.1.0`.
pub proof fn lemma_first_feature_gives_0_1_0(c: ClassifiedCommit)
    requires
        c.kind.is_feature(),
        !c.breaking,
    ensures
        next_version_spec(zero_version(), seq![c], IncrementCommand::Auto)
            == Ok::<Version, BumpError>(Version { major: 0, minor: 1, patch: 0, pre: None }),
{
    let cs = seq![c];
    assert(cs[0].kind.is_feature());
}

} // verus!
