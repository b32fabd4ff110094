use vstd::prelude::*;
use crate::error::BumpError;
use crate::version::chars_of;
use crate::settings::{
    BumpProfile, HookType, MonoRepoPackage, Settings, find_profile, profile_position,
};

verus! {

/// The templates of `hook_type` in one hook list.
pub open spec fn of_type(t: HookType, pre: Seq<String>, post: Seq<String>) -> Seq<String> {
    match t {
        HookType::PreBump => pre,
        HookType::PostBump => post,
    }
}

/// The templates of `hook_type` in the profile named `name` of `ps`; `None` when there is no
/// such profile.
pub open spec fn profile_hooks(ps: Seq<BumpProfile>, name: Seq<char>, t: HookType) -> Option<Seq<String>> {
    match profile_position(ps, name) {
        Some(i) => Some(of_type(t, ps[i].pre_bump_hooks@, ps[i].post_bump_hooks@)),
        None => None,
    }
}

/// The hook list that applies: a package's profile, else the package's own list, else a
/// profile of the configuration, else the configuration's list. A narrower list replaces the
/// broader ones.
pub open spec fn hooks_for(
    s: Settings,
    package: Option<MonoRepoPackage>,
    profile: Option<Seq<char>>,
    t: HookType,
) -> Option<Seq<String>> {
    match (package, profile) {
        (Some(p), Some(name)) => profile_hooks(p.bump_profiles@, name, t),
        (Some(p), None) => Some(of_type(t, p.pre_bump_hooks@, p.post_bump_hooks@)),
        (None, Some(name)) => profile_hooks(s.bump_profiles@, name, t),
        (None, None) => Some(of_type(t, s.pre_bump_hooks@, s.post_bump_hooks@)),
    }
}

fn hooks_of_type(t: HookType, pre: &Vec<String>, post: &Vec<String>) -> (r: Vec<String>)
    ensures
        r@ == of_type(t, pre@, post@),
{
    match t {
        HookType::PreBump => crate::engine::copy_strings(pre),
        HookType::PostBump => crate::engine::copy_strings(post),
    }
}

fn hooks_of_profile(ps: &Vec<BumpProfile>, name: &str, t: HookType) -> (r: Result<Vec<String>, BumpError>)
    ensures
        profile_hooks(ps@, name@, t) matches Some(h) ==> r matches Ok(v) && v@ == h,
        profile_hooks(ps@, name@, t) is None ==> (r matches Err(BumpError::UnknownProfile { profile })
            && profile@ == name@),
{
    match find_profile(ps, name) {
        None => Err(BumpError::UnknownProfile { profile: String::from_str(name) }),
        Some(i) => Ok(hooks_of_type(t, &ps[i].pre_bump_hooks, &ps[i].post_bump_hooks)),
    }
}

pub open spec fn opt_str_view(o: Option<&str>) -> Option<Seq<char>> {
    match o {
        Some(s) => Some(s@),
        None => None,
    }
}

pub open spec fn opt_package(o: Option<&MonoRepoPackage>) -> Option<MonoRepoPackage> {
    match o {
        Some(p) => Some(*p),
        None => None,
    }
}

/// The hook templates that apply to a bump of `hook_type`.
pub fn get_hooks(
    settings: &Settings,
    package: Option<&MonoRepoPackage>,
    profile: Option<&str>,
    hook_type: HookType,
) -> (r: Result<Vec<String>, BumpError>)
    ensures
        hooks_for(*settings, opt_package(package), opt_str_view(profile), hook_type) matches Some(h)
            ==> r matches Ok(v) && v@ == h,
        hooks_for(*settings, opt_package(package), opt_str_view(profile), hook_type) is None
            ==> (r matches Err(BumpError::UnknownProfile { profile: name }) && name@ == profile->0@),
{
    match (package, profile) {
        (Some(p), Some(name)) => hooks_of_profile(&p.bump_profiles, name, hook_type),
        (Some(p), None) => Ok(hooks_of_type(hook_type, &p.pre_bump_hooks, &p.post_bump_hooks)),
        (None, Some(name)) => hooks_of_profile(&settings.bump_profiles, name, hook_type),
        (None, None) => Ok(hooks_of_type(hook_type, &settings.pre_bump_hooks, &settings.post_bump_hooks)),
    }
}

/// The placeholder for the version being released.
pub open spec fn version_mark() -> Seq<char> {
    seq!['{', '{', 'v', 'e', 'r', 's', 'i', 'o', 'n', '}', '}']
}

/// The placeholder for the current version.
pub open spec fn latest_mark() -> Seq<char> {
    seq!['{', '{', 'l', 'a', 't', 'e', 's', 't', '}', '}']
}

pub open spec fn starts_with(t: Seq<char>, m: Seq<char>) -> bool {
    m.len() <= t.len() && t.take(m.len() as int) == m
}

pub open spec fn prepend(p: Seq<char>, o: Option<Seq<char>>) -> Option<Seq<char>> {
    match o {
        Some(x) => Some(p + x),
        None => None,
    }
}

/// The template `t` with each `{{version}}` replaced by `next` and each `{{latest}}` by
/// `latest`; `None` when `{{latest}}` occurs without a current version, or when another
/// `{{` placeholder occurs.
pub open spec fn substitute(t: Seq<char>, latest: Option<Seq<char>>, next: Seq<char>) -> Option<
    Seq<char>,
>
    decreases t.len(),
{
    if t.len() == 0 {
        Some(Seq::empty())
    } else if starts_with(t, version_mark()) {
        prepend(next, substitute(t.skip(11), latest, next))
    } else if starts_with(t, latest_mark()) {
        match latest {
            Some(l) => prepend(l, substitute(t.skip(10), latest, next)),
            None => None,
        }
    } else if t.len() >= 2 && t[0] == '{' && t[1] == '{' {
        None
    } else {
        prepend(seq![t[0]], substitute(t.skip(1), latest, next))
    }
}

/// Relies on collecting characters into a `String`: the string of those characters.
#[verifier::external_body]
pub(crate) fn string_of(v: &Vec<char>) -> (r: String)
    ensures
        r@ == v@,
{
    v.iter().collect()
}

/// Whether `t[i..]` starts with `m`.
fn mark_at(t: &Vec<char>, i: usize, m: &Vec<char>) -> (r: bool)
    requires
        i <= t@.len(),
    ensures
        r == starts_with(t@.skip(i as int), m@),
{
    if m.len() > t.len() - i {
        return false;
    }
    let tn = t.len();
    let mut k: usize = 0;
    while k < m.len()
        invariant
            tn == t@.len(),
            0 <= k <= m@.len(),
            i + m@.len() <= t@.len(),
            forall|j: int| 0 <= j < k ==> t@[i + j] == m@[j],
        decreases m@.len() - k,
    {
        if t[i + k] != m[k] {
            assert(t@.skip(i as int).take(m@.len() as int)[k as int] != m@[k as int]);
            return false;
        }
        k += 1;
    }
    assert(t@.skip(i as int).take(m@.len() as int) =~= m@);
    true
}

fn push_all(out: &mut Vec<char>, s: &Vec<char>)
    ensures
        final(out)@ == old(out)@ + s@,
{
    let mut k: usize = 0;
    while k < s.len()
        invariant
            0 <= k <= s@.len(),
            out@ == old(out)@ + s@.take(k as int),
        decreases s@.len() - k,
    {
        out.push(s[k]);
        assert(s@.take(k + 1) =~= s@.take(k as int).push(s@[k as int]));
        k += 1;
    }
    assert(s@.take(s@.len() as int) =~= s@);
}

/// Substitutes the current and next versions into a hook template; `None` when a placeholder
/// cannot be resolved.
pub fn insert_versions(template: &str, latest: Option<&str>, next: &str) -> (r: Option<String>)
    ensures
        substitute(template@, opt_str_view(latest), next@) matches Some(c) ==> r matches Some(x)
            && x@ == c,
        substitute(template@, opt_str_view(latest), next@) is None ==> r is None,
{
    let t = chars_of(template);
    let nx = chars_of(next);
    let lt: Option<Vec<char>> = match latest {
        Some(l) => Some(chars_of(l)),
        None => None,
    };
    let ghost lv = opt_str_view(latest);
    let vm: Vec<char> = vec!['{', '{', 'v', 'e', 'r', 's', 'i', 'o', 'n', '}', '}'];
    let lm: Vec<char> = vec!['{', '{', 'l', 'a', 't', 'e', 's', 't', '}', '}'];
    assert(vm@ =~= version_mark());
    assert(lm@ =~= latest_mark());
    let mut out: Vec<char> = Vec::new();
    let mut i: usize = 0;
    assert(t@.skip(0) =~= t@);
    while i < t.len()
        invariant
            0 <= i <= t@.len(),
            t@ == template@,
            nx@ == next@,
            vm@ == version_mark(),
            lm@ == latest_mark(),
            lv == opt_str_view(latest),
            lt matches Some(v) ==> lv == Some(v@),
            lt is None ==> lv is None,
            substitute(template@, lv, next@) == prepend(out@, substitute(t@.skip(i as int), lv, next@)),
        decreases t@.len() - i,
    {
        let ghost rest = t@.skip(i as int);
        let ghost before = out@;
        if mark_at(&t, i, &vm) {
            assert(rest.skip(11) =~= t@.skip(i + 11));
            push_all(&mut out, &nx);
            assert(before + nx@ + substitute(rest.skip(11), lv, next@)->0 =~= before + (nx@ + substitute(rest.skip(11), lv, next@)->0));
            i = i + 11;
        } else if mark_at(&t, i, &lm) {
            match &lt {
                None => {
                    assert(substitute(rest, lv, next@) is None);
                    return None;
                },
                Some(l) => {
                    assert(rest.skip(10) =~= t@.skip(i + 10));
                    push_all(&mut out, l);
                    assert(before + l@ + substitute(rest.skip(10), lv, next@)->0 =~= before + (l@ + substitute(rest.skip(10), lv, next@)->0));
                    i = i + 10;
                },
            }
        } else if i + 1 < t.len() && t[i] == '{' && t[i + 1] == '{' {
            assert(rest[0] == '{' && rest[1] == '{');
            assert(substitute(rest, lv, next@) is None);
            return None;
        } else {
            assert(rest.skip(1) =~= t@.skip(i + 1));
            assert(rest[0] == t@[i as int]);
            out.push(t[i]);
            assert(before.push(t@[i as int]) + substitute(rest.skip(1), lv, next@)->0 =~= before + (seq![rest[0]] + substitute(rest.skip(1), lv, next@)->0));
            i = i + 1;
        }
    }
    assert(t@.skip(i as int).len() == 0);
    assert(out@ + Seq::<char>::empty() =~= out@);
    Some(string_of(&out))
}

/// The directory where hooks run: the package's path for a package-scoped run, `None` (the
/// repository root) otherwise.
pub fn hook_dir(package: Option<&MonoRepoPackage>) -> (r: Option<String>)
    ensures
        package matches Some(p) ==> r == Some(p.path),
        package is None ==> r is None,
{
    match package {
        Some(p) => Some(p.path.clone()),
        None => None,
    }
}

} // verus!
