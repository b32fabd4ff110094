use cocogitto_bump::bump::{auto_bump, next_version, IncrementCommand};
use cocogitto_bump::commit::{classify, ClassifiedCommit, CommitKind, RawCommit};
use cocogitto_bump::engine::bump_tag;
use cocogitto_bump::error::BumpError;
use cocogitto_bump::hook::{get_hooks, hook_dir, insert_versions};
use cocogitto_bump::lifecycle::{advance, BumpStage, StageAction};
use cocogitto_bump::range::{any_pattern_matches, RevspecPattern};
use cocogitto_bump::run::{resolve_commands, HookAction, HookRun};
use cocogitto_bump::settings::{BumpProfile, HookType, MonoRepoPackage, Settings};
use cocogitto_bump::summary::bump_summary;
use cocogitto_bump::tag::{ensure_tag_is_greater_than_previous, tag_or_fallback_to_zero, Tag, TagError};
use cocogitto_bump::version::{parse_version, BumpKind, Version};
use cocogitto_bump::CocoGitto;

fn raw(oid: &str, message: &str, paths: &[&str]) -> RawCommit {
    RawCommit {
        oid: oid.to_string(),
        message: message.to_string(),
        paths: paths.iter().map(|p| p.to_string()).collect(),
    }
}

fn settings() -> Settings {
    Settings {
        branch_whitelist: vec![],
        tag_prefix: None,
        pre_bump_hooks: vec![],
        post_bump_hooks: vec![],
        bump_profiles: vec![],
        packages: vec![],
    }
}

fn package(name: &str) -> MonoRepoPackage {
    MonoRepoPackage {
        name: name.to_string(),
        path: name.to_string(),
        path_globs: vec![format!("{}/**", name)],
        pre_bump_hooks: vec![],
        post_bump_hooks: vec![],
        bump_profiles: vec![],
    }
}

fn commit(kind: CommitKind, breaking: bool) -> ClassifiedCommit {
    ClassifiedCommit {
        oid: "0123456789".to_string(),
        shorthand: "0123456".to_string(),
        kind,
        scope: None,
        breaking,
        description: "d".to_string(),
    }
}

fn other(name: &str) -> CommitKind {
    CommitKind::Other(name.to_string())
}

fn repo(history: Vec<RawCommit>, settings: Settings) -> CocoGitto {
    CocoGitto { history, settings }
}

fn tagged(version: Version, oid: &str) -> Tag {
    Tag { package: None, prefix: None, version, oid: Some(oid.to_string()) }
}

/// Drives a repository-wide automatic bump from `current` to the head.
fn auto_bump_repo(repo: &CocoGitto, current: &Tag) -> Result<Tag, BumpError> {
    let pattern = repo.get_revspec_for_tag(current)?;
    let release = repo.get_changelog_with_target_version(pattern, Tag::zero())?;
    bump_tag(current, &release.commits, &IncrementCommand::Auto)
}

#[test]
fn bump_ok() {
    let repo = repo(
        vec![
            raw("c1", "chore: first commit", &["a"]),
            raw("c2", "feat: add a feature commit", &["a"]),
            raw("c3", "feat: add another feature commit", &["a"]),
        ],
        settings(),
    );
    let current = tagged(Version::new(1, 0, 0), "c2");
    let next = auto_bump_repo(&repo, &current).unwrap();
    assert_eq!(next.name(), "1.1.0");
}

#[test]
fn should_fallback_to_0_0_0_when_there_is_no_tag() {
    let repo = repo(
        vec![raw("c1", "chore: first commit", &["a"]), raw("c2", "feat: add a feature commit", &["a"])],
        settings(),
    );
    let current = tag_or_fallback_to_zero(Err(TagError::NoTag)).unwrap();
    let next = auto_bump_repo(&repo, &current).unwrap();
    assert_eq!(next.name(), "0.1.0");
}

#[test]
fn zero_tag_range_includes_first_commit() {
    let repo = repo(vec![raw("c1", "feat: first feature", &["a"])], settings());
    let pattern = repo.get_revspec_for_tag(&Tag::zero()).unwrap();
    assert!(pattern.from_inclusive);
    let release = repo.get_changelog_with_target_version(pattern, Tag::zero()).unwrap();
    assert_eq!(release.commits.len(), 1);
    assert_eq!(release.commits[0].oid, "c1");
    let next = bump_tag(&Tag::zero(), &release.commits, &IncrementCommand::Auto).unwrap();
    assert_eq!(next.version, Version::new(0, 1, 0));
}

#[test]
fn tagged_range_excludes_tagged_commit() {
    let repo = repo(
        vec![raw("c1", "feat: one", &["a"]), raw("c2", "fix: two", &["a"]), raw("c3", "docs: three", &["a"])],
        settings(),
    );
    let current = tagged(Version::new(0, 1, 0), "c1");
    let pattern = repo.get_revspec_for_tag(&current).unwrap();
    assert_eq!(pattern.from, "c1");
    assert_eq!(pattern.to, "c3");
    let release = repo.get_changelog_with_target_version(pattern, Tag::zero()).unwrap();
    let oids: Vec<&str> = release.commits.iter().map(|c| c.oid.as_str()).collect();
    assert_eq!(oids, vec!["c2", "c3"]);
    assert_eq!(auto_bump(&release.commits), Some(BumpKind::Patch));
}

#[test]
fn unknown_revision_is_reported() {
    let repo = repo(vec![raw("c1", "feat: one", &["a"])], settings());
    let pattern = RevspecPattern { from: "nope".to_string(), to: "c1".to_string(), from_inclusive: false };
    let err = repo.get_changelog_with_target_version(pattern, Tag::zero()).unwrap_err();
    assert!(matches!(err, BumpError::UnknownRevision));
}

#[test]
fn empty_history_has_no_range() {
    let repo = repo(vec![], settings());
    assert!(matches!(repo.get_revspec_for_tag(&Tag::zero()), Err(BumpError::EmptyHistory)));
}

#[test]
fn non_conforming_commits_are_left_out() {
    let repo = repo(
        vec![raw("c1", "not conventional at all", &["a"]), raw("c2", "fix(core)!: drop api", &["a"])],
        settings(),
    );
    let pattern = repo.get_revspec_for_tag(&Tag::zero()).unwrap();
    let release = repo.get_changelog_with_target_version(pattern, Tag::zero()).unwrap();
    assert_eq!(release.commits.len(), 1);
    let c = &release.commits[0];
    assert!(c.breaking);
    assert!(matches!(c.kind, CommitKind::BugFix));
    assert_eq!(c.scope.as_deref(), Some("core"));
    assert_eq!(c.description, "drop api");
}

#[test]
fn classify_reads_type_and_short_id() {
    let c = classify(&raw("0123456789abcdef", "docs: readme", &[])).unwrap();
    assert_eq!(c.shorthand, "0123456");
    assert!(matches!(&c.kind, CommitKind::Other(s) if s == "docs"));
    assert!(!c.breaking);
    let f = classify(&raw("abc", "feat: x", &[])).unwrap();
    assert_eq!(f.shorthand, "abc");
    assert!(matches!(f.kind, CommitKind::Feature));
    assert!(classify(&raw("abc", "garbage", &[])).is_none());
}

#[test]
fn breaking_footer_counts_as_breaking() {
    let c = classify(&raw("abc", "chore: x\n\nBREAKING CHANGE: everything", &[])).unwrap();
    assert!(c.breaking);
}

#[test]
fn breaking_commit_gives_major() {
    let cs = vec![commit(CommitKind::Feature, false), commit(other("chore"), true), commit(CommitKind::BugFix, false)];
    assert_eq!(auto_bump(&cs), Some(BumpKind::Major));
    let v = next_version(&Version::new(1, 2, 3), &cs, &IncrementCommand::Auto).unwrap();
    assert_eq!(v, Version::new(2, 0, 0));
}

#[test]
fn feature_commit_gives_minor() {
    let cs = vec![commit(CommitKind::BugFix, false), commit(CommitKind::Feature, false), commit(other("docs"), false)];
    let v = next_version(&Version::new(1, 2, 3), &cs, &IncrementCommand::Auto).unwrap();
    assert_eq!(v, Version::new(1, 3, 0));
}

#[test]
fn fix_commits_give_patch() {
    let cs = vec![commit(CommitKind::BugFix, false), commit(CommitKind::BugFix, false)];
    let v = next_version(&Version::new(1, 2, 3), &cs, &IncrementCommand::Auto).unwrap();
    assert_eq!(v, Version::new(1, 2, 4));
}

#[test]
fn no_bump_worthy_commit_is_nothing_to_bump() {
    let cs = vec![commit(other("chore"), false), commit(other("docs"), false)];
    let err = next_version(&Version::new(1, 2, 3), &cs, &IncrementCommand::Auto).unwrap_err();
    assert!(err.is_nothing_to_bump());
    let empty: Vec<ClassifiedCommit> = vec![];
    assert!(matches!(bump_tag(&Tag::zero(), &empty, &IncrementCommand::Auto), Err(BumpError::NothingToBump)));
}

#[test]
fn forced_parts_ignore_commits() {
    let cs = vec![commit(other("chore"), false)];
    let cur = Version::new(1, 2, 3);
    assert_eq!(next_version(&cur, &cs, &IncrementCommand::Major).unwrap(), Version::new(2, 0, 0));
    assert_eq!(next_version(&cur, &cs, &IncrementCommand::Minor).unwrap(), Version::new(1, 3, 0));
    assert_eq!(next_version(&cur, &cs, &IncrementCommand::Patch).unwrap(), Version::new(1, 2, 4));
    assert_eq!(
        next_version(&cur, &cs, &IncrementCommand::Manual(Version::new(7, 0, 1))).unwrap(),
        Version::new(7, 0, 1)
    );
    assert_eq!(
        next_version(&cur, &cs, &IncrementCommand::AutoPackage("one".to_string())).unwrap_err().is_nothing_to_bump(),
        true
    );
}

#[test]
fn bump_at_largest_part_overflows() {
    let cs: Vec<ClassifiedCommit> = vec![];
    let cur = Version::new(u64::MAX, 0, 0);
    assert!(matches!(next_version(&cur, &cs, &IncrementCommand::Major), Err(BumpError::VersionOverflow)));
    assert_eq!(Version::new(u64::MAX, 0, 0).text(), "18446744073709551615.0.0");
}

#[test]
fn explicit_downgrade_is_rejected() {
    let current = tagged(Version::new(1, 2, 0), "c1");
    let cs: Vec<ClassifiedCommit> = vec![];
    for v in [Version::new(1, 2, 0), Version::new(1, 1, 9), Version::new(0, 9, 0)] {
        match bump_tag(&current, &cs, &IncrementCommand::Manual(v.clone())) {
            Err(BumpError::Ordering { current: c, next: n }) => {
                assert_eq!(c, Version::new(1, 2, 0));
                assert_eq!(n, v);
            }
            other => panic!("unexpected {:?}", other),
        }
    }
    let up = bump_tag(&current, &cs, &IncrementCommand::Manual(Version::new(1, 2, 1))).unwrap();
    assert_eq!(up.name(), "1.2.1");
}

#[test]
fn ordering_check_compares_versions() {
    let a = tagged(Version::new(1, 0, 0), "x");
    let b = tagged(Version::new(1, 0, 1), "y");
    assert!(ensure_tag_is_greater_than_previous(&a, &b).is_ok());
    assert!(ensure_tag_is_greater_than_previous(&b, &a).is_err());
    assert!(ensure_tag_is_greater_than_previous(&a, &a).is_err());
}

#[test]
fn tag_fallback_keeps_other_errors() {
    let t = tag_or_fallback_to_zero(Ok(tagged(Version::new(2, 0, 0), "x"))).unwrap();
    assert_eq!(t.version, Version::new(2, 0, 0));
    let z = tag_or_fallback_to_zero(Err(TagError::NoTag)).unwrap();
    assert!(z.is_zero());
    assert!(matches!(
        tag_or_fallback_to_zero(Err(TagError::NotSemver { tag: "toto".to_string() })),
        Err(TagError::NotSemver { .. })
    ));
}

#[test]
fn tag_names_carry_package_and_prefix() {
    let t = Tag::new(Some("one".to_string()), Some("v".to_string()), Version::new(0, 1, 0));
    assert_eq!(t.name(), "one-v0.1.0");
    let g = Tag::new(None, Some("v".to_string()), Version::new(10, 20, 30));
    assert_eq!(g.name(), "v10.20.30");
}

fn gated(whitelist: &[&str]) -> CocoGitto {
    let mut s = settings();
    s.branch_whitelist = whitelist.iter().map(|p| p.to_string()).collect();
    repo(vec![], s)
}

#[test]
fn bump_with_whitelisted_branch_ok() {
    assert!(gated(&["master"]).pre_bump_checks(vec![], Some("master".to_string())).is_ok());
}

#[test]
fn bump_with_whitelisted_branch_fails() {
    match gated(&["main"]).pre_bump_checks(vec![], Some("master".to_string())) {
        Err(BumpError::BranchNotAllowed { patterns, branch }) => {
            assert_eq!(patterns, vec!["main".to_string()]);
            assert_eq!(branch, "master");
        }
        other => panic!("unexpected {:?}", other),
    }
}

#[test]
fn bump_with_whitelisted_branch_pattern_ok() {
    let repo = gated(&["main", "release/**"]);
    assert!(repo.pre_bump_checks(vec![], Some("release/1.0.0".to_string())).is_ok());
}

#[test]
fn bump_with_whitelisted_branch_pattern_err() {
    let repo = gated(&["main", "release/**"]);
    match repo.pre_bump_checks(vec![], Some("develop".to_string())) {
        Err(BumpError::BranchNotAllowed { patterns, branch }) => {
            assert_eq!(patterns, vec!["main".to_string(), "release/**".to_string()]);
            assert_eq!(branch, "develop");
        }
        other => panic!("unexpected {:?}", other),
    }
}

#[test]
fn dirty_tree_stops_the_bump() {
    let err = gated(&[]).pre_bump_checks(vec!["M src/lib.rs".to_string()], None).unwrap_err();
    assert!(matches!(err, BumpError::DirtyTree { changes } if changes == vec!["M src/lib.rs".to_string()]));
}

#[test]
fn invalid_glob_is_reported() {
    let repo = gated(&["a[", "main"]);
    assert!(matches!(
        repo.pre_bump_checks(vec![], Some("main".to_string())),
        Err(BumpError::InvalidPattern { pattern }) if pattern == "a["
    ));
    assert_eq!(any_pattern_matches(&vec!["main".to_string(), "a[".to_string()], "main"), Ok(true));
}

#[test]
fn detached_head_needs_no_whitelist() {
    assert!(gated(&[]).pre_bump_checks(vec![], Some("any".to_string())).is_ok());
    assert!(matches!(
        gated(&["main"]).pre_bump_checks(vec![], None),
        Err(BumpError::NoBranch { patterns }) if patterns == vec!["main".to_string()]
    ));
}

fn monorepo() -> CocoGitto {
    let mut s = settings();
    s.packages = vec![package("one"), package("two")];
    repo(
        vec![
            raw("c1", "chore: init", &["README.md"]),
            raw("c2", "feat(one): first", &["one/src/lib.rs"]),
            raw("c3", "feat(two): second", &["two/src/lib.rs"]),
            raw("c4", "docs: global", &["docs/index.md"]),
        ],
        s,
    )
}

fn package_tag(repo: &CocoGitto, name: &str, prefix: Option<&str>) -> Tag {
    let current = Tag::new(Some(name.to_string()), prefix.map(|p| p.to_string()), Version::zero());
    let pattern = repo.get_revspec_for_tag(&current).unwrap();
    let release = repo.get_package_changelog_with_target_version(pattern, Tag::zero(), name).unwrap();
    bump_tag(&current, &release.commits, &IncrementCommand::AutoPackage(name.to_string())).unwrap()
}

#[test]
fn monorepo_bump_ok() {
    let repo = monorepo();
    let one = package_tag(&repo, "one", None);
    let two = package_tag(&repo, "two", None);
    assert_eq!(one.name(), "one-0.1.0");
    assert_eq!(two.name(), "two-0.1.0");

    let pattern = repo.get_revspec_for_tag(&Tag::zero()).unwrap();
    let mut all: Vec<ClassifiedCommit> = vec![];
    for name in ["one", "two"] {
        let p = repo.get_revspec_for_tag(&Tag::zero()).unwrap();
        all.extend(repo.get_package_changelog_with_target_version(p, Tag::zero(), name).unwrap().commits);
    }
    let global = repo.get_monorepo_global_changelog_with_target_version(pattern, Tag::zero()).unwrap();
    let oids: Vec<&str> = global.commits.iter().map(|c| c.oid.as_str()).collect();
    assert_eq!(oids, vec!["c1", "c4"]);
    all.extend(global.commits);
    let aggregate = bump_tag(&Tag::zero(), &all, &IncrementCommand::Auto).unwrap();
    assert_eq!(aggregate.name(), "0.1.0");
}

#[test]
fn package_bump_ok() {
    let repo = monorepo();
    let pattern = repo.get_revspec_for_tag(&Tag::zero()).unwrap();
    let release = repo.get_package_changelog_with_target_version(pattern, Tag::zero(), "one").unwrap();
    let oids: Vec<&str> = release.commits.iter().map(|c| c.oid.as_str()).collect();
    assert_eq!(oids, vec!["c2"]);
    assert_eq!(package_tag(&repo, "one", None).name(), "one-0.1.0");
}

#[test]
fn monorepo_with_tag_prefix_bump_ok() {
    let mut repo = monorepo();
    repo.settings.tag_prefix = Some("v".to_string());
    let current = vec![Tag::zero(), Tag::zero()];
    let plan = repo.plan_monorepo_bump(&current, &Tag::zero(), &IncrementCommand::Auto).unwrap();
    let names: Vec<Option<String>> = plan.package_tags.iter().map(|t| t.as_ref().map(|t| t.name())).collect();
    assert_eq!(names, vec![Some("one-v0.1.0".to_string()), Some("two-v0.1.0".to_string())]);
    assert_eq!(plan.aggregate.name(), "v0.1.0");
}

#[test]
fn repository_bump_uses_configured_prefix() {
    let mut repo = monorepo();
    repo.settings.tag_prefix = Some("v".to_string());
    let next = repo.next_tag(&Tag::zero(), &vec![commit(CommitKind::Feature, false)], &IncrementCommand::Auto).unwrap();
    assert_eq!(next.name(), "v0.1.0");
}

#[test]
fn monorepo_bump_manual_ok() {
    let current = Tag::zero();
    let cs: Vec<ClassifiedCommit> = vec![];
    let next = bump_tag(&current, &cs, &IncrementCommand::Major).unwrap();
    assert_eq!(next.name(), "1.0.0");
}

#[test]
fn unknown_package_is_reported() {
    let repo = monorepo();
    let pattern = repo.get_revspec_for_tag(&Tag::zero()).unwrap();
    let err = repo.get_package_changelog_with_target_version(pattern, Tag::zero(), "three").unwrap_err();
    assert!(matches!(err, BumpError::UnknownPackage { name } if name == "three"));
}

fn profile(name: &str, pre: &[&str], post: &[&str]) -> BumpProfile {
    BumpProfile {
        name: name.to_string(),
        pre_bump_hooks: pre.iter().map(|s| s.to_string()).collect(),
        post_bump_hooks: post.iter().map(|s| s.to_string()).collect(),
    }
}

#[test]
fn hook_lists_resolve_narrowest_first() {
    let mut s = settings();
    s.pre_bump_hooks = vec!["global-pre".to_string()];
    s.post_bump_hooks = vec!["global-post".to_string()];
    s.bump_profiles = vec![profile("ci", &["ci-pre"], &["ci-post"])];
    let mut p = package("one");
    p.pre_bump_hooks = vec!["pkg-pre".to_string()];
    p.bump_profiles = vec![profile("ci", &["pkg-ci-pre"], &[])];

    assert_eq!(get_hooks(&s, None, None, HookType::PreBump).unwrap(), vec!["global-pre"]);
    assert_eq!(get_hooks(&s, None, None, HookType::PostBump).unwrap(), vec!["global-post"]);
    assert_eq!(get_hooks(&s, None, Some("ci"), HookType::PostBump).unwrap(), vec!["ci-post"]);
    assert_eq!(get_hooks(&s, Some(&p), None, HookType::PreBump).unwrap(), vec!["pkg-pre"]);
    assert_eq!(get_hooks(&s, Some(&p), Some("ci"), HookType::PreBump).unwrap(), vec!["pkg-ci-pre"]);
    assert!(get_hooks(&s, Some(&p), Some("ci"), HookType::PostBump).unwrap().is_empty());
    assert!(matches!(
        get_hooks(&s, None, Some("nightly"), HookType::PreBump),
        Err(BumpError::UnknownProfile { profile }) if profile == "nightly"
    ));
}

#[test]
fn versions_are_substituted_into_templates() {
    assert_eq!(
        insert_versions("git tag {{latest}}..{{version}} {x}", Some("1.0.0"), "1.1.0").unwrap(),
        "git tag 1.0.0..1.1.0 {x}"
    );
    assert_eq!(insert_versions("echo {{version}}", None, "0.1.0").unwrap(), "echo 0.1.0");
    assert!(insert_versions("echo {{latest}}", None, "0.1.0").is_none());
    assert!(insert_versions("echo {{unknown}}", Some("1.0.0"), "0.1.0").is_none());
}

#[test]
fn unresolvable_template_names_its_index() {
    let ts = vec!["echo {{version}}".to_string(), "echo {{latest}}".to_string()];
    match resolve_commands(&ts, None, "0.1.0", Some("ci"), Some("one")) {
        Err(BumpError::HookConfig { index, profile, package }) => {
            assert_eq!(index, 1);
            assert_eq!(profile.as_deref(), Some("ci"));
            assert_eq!(package.as_deref(), Some("one"));
        }
        other => panic!("unexpected {:?}", other),
    }
    let ok = resolve_commands(&ts, Some("0.0.9"), "0.1.0", None, None).unwrap();
    assert_eq!(ok, vec!["echo 0.1.0", "echo 0.0.9"]);
}

#[test]
fn failing_post_bump_hook_halts_and_stashes() {
    let mut run = HookRun::new(vec!["ok".to_string(), "fails".to_string(), "never".to_string()], None);
    let mut ran: Vec<String> = vec![];
    loop {
        match run.next_action() {
            HookAction::Run { command, dir, .. } => {
                assert!(dir.is_none());
                let outcome = if command == "fails" { Err("exit status 1".to_string()) } else { Ok(()) };
                ran.push(command);
                run.record(outcome);
            }
            HookAction::Finished => break,
            HookAction::Halted { index } => {
                assert_eq!(index, 1);
                break;
            }
        }
    }
    assert_eq!(ran, vec!["ok", "fails"]);
    assert!(run.has_failed());
    match run.finish("1.1.0".to_string(), "stash@{0}".to_string()) {
        Err(BumpError::HookExecution { index, cause, tag, stash }) => {
            assert_eq!(index, 1);
            assert_eq!(cause, "exit status 1");
            assert_eq!(tag, "1.1.0");
            assert_eq!(stash, "stash@{0}");
        }
        other => panic!("unexpected {:?}", other),
    }
}

#[test]
fn successful_hooks_finish() {
    let p = package("one");
    let mut run = HookRun::new(vec!["a".to_string()], hook_dir(Some(&p)));
    assert!(matches!(run.next_action(), HookAction::Run { index: 0, dir: Some(d), .. } if d == "one"));
    run.record(Ok(()));
    assert!(matches!(run.next_action(), HookAction::Finished));
    assert!(run.finish("t".to_string(), "s".to_string()).is_ok());
}

#[test]
fn summary_counts_skipped_types() {
    let cs = vec![
        commit(other("docs"), false),
        commit(CommitKind::Feature, false),
        commit(other("chore"), false),
        commit(other("docs"), false),
        commit(other("ci"), true),
        commit(CommitKind::BugFix, false),
    ];
    let s = bump_summary(&cs);
    assert_eq!(s.bump_commits, vec![1, 4, 5]);
    assert_eq!(s.skipped, vec![(1, "chore".to_string()), (2, "docs".to_string())]);
}

#[test]
fn lifecycle_rolls_back_only_after_tagging() {
    assert_eq!(advance(BumpStage::PreHooksRun, false), (BumpStage::Aborted, StageAction::Abort));
    assert_eq!(advance(BumpStage::PostHooksRun, false), (BumpStage::RolledBack, StageAction::StashAndReport));
    assert_eq!(advance(BumpStage::Tagged, false), (BumpStage::RolledBack, StageAction::StashAndReport));
    assert_eq!(advance(BumpStage::PreHooksRun, true), (BumpStage::Tagged, StageAction::Continue));
    assert_eq!(advance(BumpStage::PostHooksRun, true), (BumpStage::Committed, StageAction::Done));
    assert_eq!(advance(BumpStage::Committed, false), (BumpStage::Committed, StageAction::Done));
}

#[test]
fn tag_without_revision_has_no_range() {
    let repo = repo(vec![raw("c1", "feat: one", &["a"])], settings());
    let t = Tag::new(None, None, Version::new(1, 0, 0));
    assert!(matches!(repo.get_revspec_for_tag(&t), Err(BumpError::UnknownRevision)));
}

#[test]
fn version_text_parses() {
    assert_eq!(parse_version("1.20.3"), Some(Version::new(1, 20, 3)));
    assert_eq!(parse_version("0.0.0"), Some(Version::zero()));
    assert_eq!(parse_version("18446744073709551615.0.1"), Some(Version::new(u64::MAX, 0, 1)));
    for bad in ["", "1", "1.2", "1.2.", ".1.2", "1..2", "01.2.3", "1.2.3.4", "1.2.x", "18446744073709551616.0.0", "v1.2.3"] {
        assert_eq!(parse_version(bad), None, "{}", bad);
    }
    assert_eq!(parse_version(&Version::new(3, 0, 12).text()), Some(Version::new(3, 0, 12)));
}

#[test]
fn monorepo_plan_tags_each_package_and_aggregate() {
    let mut repo = monorepo();
    repo.settings.packages.push(package("three"));
    let current = vec![Tag::zero(), Tag::zero(), Tag::zero()];
    let plan = repo.plan_monorepo_bump(&current, &Tag::zero(), &IncrementCommand::Auto).unwrap();
    let names: Vec<Option<String>> = plan.package_tags.iter().map(|t| t.as_ref().map(|t| t.name())).collect();
    assert_eq!(names, vec![Some("one-0.1.0".to_string()), Some("two-0.1.0".to_string()), None]);
    assert_eq!(plan.aggregate.name(), "0.1.0");
}

#[test]
fn monorepo_plan_aborts_on_package_failure() {
    let mut repo = monorepo();
    repo.settings.packages[1].path_globs = vec!["two[".to_string()];
    let current: Vec<Tag> = ["one", "two"]
        .iter()
        .map(|n| Tag::new(Some(n.to_string()), None, Version::zero()))
        .collect();
    let err = repo.plan_monorepo_bump(&current, &Tag::zero(), &IncrementCommand::Auto).unwrap_err();
    assert!(matches!(err, BumpError::InvalidPattern { pattern } if pattern == "two["));
}

#[test]
fn build_metadata_is_ignored() {
    assert_eq!(parse_version("1.0.0+build.1"), Some(Version::new(1, 0, 0)));
    assert_eq!(parse_version("1.0.0+build.2"), parse_version("1.0.0+build.1"));
    assert_eq!(parse_version("1.0+build"), None);
    let a = tagged(parse_version("1.0.0+build.1").unwrap(), "x");
    let b = tagged(parse_version("1.0.0+build.2").unwrap(), "y");
    assert!(ensure_tag_is_greater_than_previous(&a, &b).is_err());
}

#[test]
fn very_long_glob_is_handled_without_panic() {
    let long = "a".repeat(3_000_000);
    let r = any_pattern_matches(&vec![long], "a");
    assert!(matches!(r, Ok(false) | Err(_)));
}

#[test]
fn pre_release_precedence() {
    let rc1 = parse_version("1.0.0-rc.1").unwrap();
    assert_eq!(rc1, Version::with_pre(1, 0, 0, "rc.1".to_string()));
    assert_eq!(rc1.text(), "1.0.0-rc.1");
    let release = parse_version("1.0.0").unwrap();
    let a = tagged(rc1.clone(), "x");
    let b = tagged(release, "y");
    assert!(ensure_tag_is_greater_than_previous(&a, &b).is_ok());
    assert!(ensure_tag_is_greater_than_previous(&b, &a).is_err());
    // 1.0.0-alpha < 1.0.0-alpha.1 < 1.0.0-alpha.beta < 1.0.0-beta < 1.0.0-beta.2 < 1.0.0-beta.11 < 1.0.0-rc.1 < 1.0.0
    let order = ["1.0.0-alpha", "1.0.0-alpha.1", "1.0.0-alpha.beta", "1.0.0-beta", "1.0.0-beta.2", "1.0.0-beta.11", "1.0.0-rc.1", "1.0.0"];
    for w in order.windows(2) {
        let lo = parse_version(w[0]).unwrap();
        let hi = parse_version(w[1]).unwrap();
        assert!(lo.le(&hi), "{} <= {}", w[0], w[1]);
        assert!(!hi.le(&lo), "{} > {}", w[1], w[0]);
    }
    assert_eq!(parse_version("1.0.0-rc.1+build.5"), Some(Version::with_pre(1, 0, 0, "rc.1".to_string())));
    for bad in ["1.0.0-", "1.0.0-.a", "1.0.0-a..b", "1.0.0-a.", "1.0.0-a_b", "1-0.0.0"] {
        assert_eq!(parse_version(bad), None, "{}", bad);
    }
    let next = next_version(&rc1, &vec![commit(CommitKind::BugFix, false)], &IncrementCommand::Patch).unwrap();
    assert_eq!(next, Version::new(1, 0, 1));
}

#[test]
fn summary_lists_types_in_conventional_order() {
    let cs = vec![
        commit(other("zeta"), false),
        commit(other("perf"), false),
        commit(other("alpha"), false),
        commit(other("revert"), false),
        commit(other("perf"), false),
        commit(other("ci"), false),
    ];
    let s = bump_summary(&cs);
    let got: Vec<(usize, &str)> = s.skipped.iter().map(|(n, t)| (*n, t.as_str())).collect();
    assert_eq!(got, vec![(1, "revert"), (2, "perf"), (1, "ci"), (1, "alpha"), (1, "zeta")]);
    assert!(s.bump_commits.is_empty());
}
