use vstd::prelude::*;

verus! {

/// When a hook runs: before the tag is created, or after.
#[derive(Clone, Copy, Debug, PartialEq, Eq, Structural)]
pub enum HookType {
    PreBump,
    PostBump,
}

/// A named alternative set of hook templates.
#[derive(Debug)]
pub struct BumpProfile {
    pub name: String,
    pub pre_bump_hooks: Vec<String>,
    pub post_bump_hooks: Vec<String>,
}

/// A package of a monorepo: its name, its directory, the globs of the paths that belong to it
/// and its own hooks.
#[derive(Debug)]
pub struct MonoRepoPackage {
    pub name: String,
    pub path: String,
    pub path_globs: Vec<String>,
    pub pre_bump_hooks: Vec<String>,
    pub post_bump_hooks: Vec<String>,
    pub bump_profiles: Vec<BumpProfile>,
}

/// The configuration that a bump reads.
#[derive(Debug)]
pub struct Settings {
    pub branch_whitelist: Vec<String>,
    pub tag_prefix: Option<String>,
    pub pre_bump_hooks: Vec<String>,
    pub post_bump_hooks: Vec<String>,
    pub bump_profiles: Vec<BumpProfile>,
    pub packages: Vec<MonoRepoPackage>,
}

/// The first profile named `name`, if any.
pub open spec fn profile_position(ps: Seq<BumpProfile>, name: Seq<char>) -> Option<int> {
    if exists|i: int| 0 <= i < ps.len() && (#[trigger] ps[i]).name@ == name {
        Some(choose|i: int| 0 <= i < ps.len() && (#[trigger] ps[i]).name@ == name && forall|j: int|
            0 <= j < i ==> (#[trigger] ps[j]).name@ != name)
    } else {
        None
    }
}

/// The first package named `name`, if any.
pub open spec fn package_position(ps: Seq<MonoRepoPackage>, name: Seq<char>) -> Option<int> {
    if exists|i: int| 0 <= i < ps.len() && (#[trigger] ps[i]).name@ == name {
        Some(choose|i: int| 0 <= i < ps.len() && (#[trigger] ps[i]).name@ == name && forall|j: int|
            0 <= j < i ==> (#[trigger] ps[j]).name@ != name)
    } else {
        None
    }
}

/// The position of the profile named `name`.
pub fn find_profile(ps: &Vec<BumpProfile>, name: &str) -> (r: Option<usize>)
    ensures
        r matches Some(i) ==> profile_position(ps@, name@) == Some(i as int),
        r matches Some(i) ==> i < ps@.len(),
        r is None ==> profile_position(ps@, name@) is None,
{
    let key = String::from_str(name);
    let mut i: usize = 0;
    while i < ps.len()
        invariant
            0 <= i <= ps@.len(),
            key@ == name@,
            forall|j: int| 0 <= j < i ==> (#[trigger] ps@[j]).name@ != name@,
        decreases ps@.len() - i,
    {
        if ps[i].name == key {
            let ghost k = choose|k: int| 0 <= k < ps@.len() && (#[trigger] ps@[k]).name@ == name@
                && forall|j: int| 0 <= j < k ==> (#[trigger] ps@[j]).name@ != name@;
            assert(ps@[i as int].name@ == name@);
            assert(k == i) by {
                if k > i {
                    assert(ps@[i as int].name@ != name@);
                }
            }
            return Some(i);
        }
        i += 1;
    }
    None
}

/// The position of the package named `name`.
pub fn find_package(ps: &Vec<MonoRepoPackage>, name: &str) -> (r: Option<usize>)
    ensures
        r matches Some(i) ==> package_position(ps@, name@) == Some(i as int),
        r matches Some(i) ==> i < ps@.len(),
        r is None ==> package_position(ps@, name@) is None,
{
    let key = String::from_str(name);
    let mut i: usize = 0;
    while i < ps.len()
        invariant
            0 <= i <= ps@.len(),
            key@ == name@,
            forall|j: int| 0 <= j < i ==> (#[trigger] ps@[j]).name@ != name@,
        decreases ps@.len() - i,
    {
        if ps[i].name == key {
            let ghost k = choose|k: int| 0 <= k < ps@.len() && (#[trigger] ps@[k]).name@ == name@
                && forall|j: int| 0 <= j < k ==> (#[trigger] ps@[j]).name@ != name@;
            assert(ps@[i as int].name@ == name@);
            assert(k == i) by {
                if k > i {
                    assert(ps@[i as int].name@ != name@);
                }
            }
            return Some(i);
        }
        i += 1;
    }
    None
}

} // verus!
