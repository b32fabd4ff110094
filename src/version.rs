use vstd::prelude::*;
use crate::prerelease::{compare_pre, pre_cmp};
use crate::tag::copy_text;
use crate::hook::string_of;

verus! {

/// A semantic version number `major.minor.patch`, with an optional pre-release part: the
/// dot-separated identifiers after `-`, as in `1.0.0-rc.1`.
#[derive(Clone, Debug, PartialEq, Eq)]
pub struct Version {
    pub major: u64,
    pub minor: u64,
    pub patch: u64,
    pub pre: Option<String>,
}

/// Which part of a version a bump increments.
#[derive(Clone, Copy, Debug, PartialEq, Eq, Structural)]
pub enum BumpKind {
    Major,
    Minor,
    Patch,
}

/// `a`'s `major.minor.patch` is below `b`'s.
pub open spec fn core_lt(a: Version, b: Version) -> bool {
    a.major < b.major || (a.major == b.major && (a.minor < b.minor || (a.minor == b.minor
        && a.patch < b.patch)))
}

pub open spec fn same_core(a: Version, b: Version) -> bool {
    a.major == b.major && a.minor == b.minor && a.patch == b.patch
}

/// `a <= b` under semantic-version precedence: `major.minor.patch` first; on a tie a
/// pre-release is below its release, and two pre-releases compare by their identifiers.
pub open spec fn version_le(a: Version, b: Version) -> bool {
    core_lt(a, b) || (same_core(a, b) && match (a.pre, b.pre) {
        (None, None) => true,
        (Some(_), None) => true,
        (None, Some(_)) => false,
        (Some(x), Some(y)) => pre_cmp(x@, y@) <= 0,
    })
}

pub open spec fn zero_version() -> Version {
    Version { major: 0, minor: 0, patch: 0, pre: None }
}

/// Whether bumping `kind` on `v` stays within the range of a `u64` component.
pub open spec fn bump_fits(v: Version, kind: BumpKind) -> bool {
    match kind {
        BumpKind::Major => v.major < u64::MAX,
        BumpKind::Minor => v.minor < u64::MAX,
        BumpKind::Patch => v.patch < u64::MAX,
    }
}

/// The version that follows `v` when `kind` is incremented: lower parts reset to zero, and the
/// result is a release.
pub open spec fn bumped(v: Version, kind: BumpKind) -> Version
    recommends
        bump_fits(v, kind),
{
    match kind {
        BumpKind::Major => Version { major: (v.major + 1) as u64, minor: 0, patch: 0, pre: None },
        BumpKind::Minor => Version { major: v.major, minor: (v.minor + 1) as u64, patch: 0, pre: None },
        BumpKind::Patch => Version { major: v.major, minor: v.minor, patch: (v.patch + 1) as u64, pre: None },
    }
}

/// The decimal digits of `n`, most significant first.
pub open spec fn decimal(n: nat) -> Seq<char>
    decreases n,
{
    if n < 10 {
        seq![digit_char(n)]
    } else {
        decimal(n / 10) + seq![digit_char(n % 10)]
    }
}

pub open spec fn digit_char(d: nat) -> char {
    if d == 0 { '0' } else if d == 1 { '1' } else if d == 2 { '2' } else if d == 3 { '3' }
    else if d == 4 { '4' } else if d == 5 { '5' } else if d == 6 { '6' } else if d == 7 { '7' }
    else if d == 8 { '8' } else { '9' }
}

/// The text form `major.minor.patch`, followed by `-` and the pre-release part if any.
pub open spec fn version_text(v: Version) -> Seq<char> {
    let core = decimal(v.major as nat) + seq!['.'] + decimal(v.minor as nat) + seq!['.'] + decimal(
        v.patch as nat,
    );
    match v.pre {
        Some(p) => core + seq!['-'] + p@,
        None => core,
    }
}

fn digit_of(d: u64) -> (c: char)
    requires
        d < 10,
    ensures
        c == digit_char(d as nat),
{
    if d == 0 { '0' } else if d == 1 { '1' } else if d == 2 { '2' } else if d == 3 { '3' }
    else if d == 4 { '4' } else if d == 5 { '5' } else if d == 6 { '6' } else if d == 7 { '7' }
    else if d == 8 { '8' } else { '9' }
}

/// Appends the decimal digits of `n`.
fn push_decimal(n: u64, out: &mut Vec<char>)
    ensures
        final(out)@ == old(out)@ + decimal(n as nat),
    decreases n,
{
    let ghost before = out@;
    if n >= 10 {
        push_decimal(n / 10, out);
    }
    out.push(digit_of(n % 10));
    assert(out@ =~= before + decimal(n as nat));
}

/// The decimal representation of `n`.
fn decimal_string(n: u64) -> (r: String)
    ensures
        r@ == decimal(n as nat),
{
    let mut v: Vec<char> = Vec::new();
    push_decimal(n, &mut v);
    assert(v@ =~= decimal(n as nat));
    string_of(&v)
}

impl Version {
    pub fn new(major: u64, minor: u64, patch: u64) -> (r: Version)
        ensures
            r == (Version { major, minor, patch, pre: None }),
    {
        Version { major, minor, patch, pre: None }
    }

    /// A pre-release `major.minor.patch-pre`.
    pub fn with_pre(major: u64, minor: u64, patch: u64, pre: String) -> (r: Version)
        ensures
            r == (Version { major, minor, patch, pre: Some(pre) }),
    {
        Version { major, minor, patch, pre: Some(pre) }
    }

    /// A field-by-field copy.
    pub fn duplicate(&self) -> (r: Version)
        ensures
            r == *self,
    {
        Version { major: self.major, minor: self.minor, patch: self.patch, pre: copy_text(&self.pre) }
    }

    /// The zero baseline `0.0.0`.
    pub fn zero() -> (r: Version)
        ensures
            r == zero_version(),
    {
        Version { major: 0, minor: 0, patch: 0, pre: None }
    }

    pub fn is_zero(&self) -> (r: bool)
        ensures
            r == (*self == zero_version()),
    {
        self.major == 0 && self.minor == 0 && self.patch == 0 && self.pre.is_none()
    }

    /// `self <= other` under semantic-version precedence.
    pub fn le(&self, other: &Version) -> (r: bool)
        ensures
            r == version_le(*self, *other),
    {
        if self.major != other.major {
            return self.major < other.major;
        }
        if self.minor != other.minor {
            return self.minor < other.minor;
        }
        if self.patch != other.patch {
            return self.patch < other.patch;
        }
        match (&self.pre, &other.pre) {
            (None, None) => true,
            (Some(_), None) => true,
            (None, Some(_)) => false,
            (Some(x), Some(y)) => {
                let a = chars_of(x.as_str());
                let b = chars_of(y.as_str());
                compare_pre(&a, &b) <= 0
            },
        }
    }

    /// Increments the part `kind`; `None` when that part is already at its maximum.
    pub fn bump(&self, kind: BumpKind) -> (r: Option<Version>)
        ensures
            bump_fits(*self, kind) ==> r == Some(bumped(*self, kind)),
            !bump_fits(*self, kind) ==> r.is_none(),
    {
        match kind {
            BumpKind::Major => {
                if self.major < u64::MAX {
                    Some(Version { major: self.major + 1, minor: 0, patch: 0, pre: None })
                } else {
                    None
                }
            },
            BumpKind::Minor => {
                if self.minor < u64::MAX {
                    Some(Version { major: self.major, minor: self.minor + 1, patch: 0, pre: None })
                } else {
                    None
                }
            },
            BumpKind::Patch => {
                if self.patch < u64::MAX {
                    Some(Version { major: self.major, minor: self.minor, patch: self.patch + 1, pre: None })
                } else {
                    None
                }
            },
        }
    }

    /// The text form `major.minor.patch`.
    pub fn text(&self) -> (r: String)
        ensures
            r@ == version_text(*self),
    {
        let mut s = decimal_string(self.major);
        s.append(".");
        let minor = decimal_string(self.minor);
        s.append(minor.as_str());
        s.append(".");
        let patch = decimal_string(self.patch);
        s.append(patch.as_str());
        match &self.pre {
            Some(p) => {
                s.append("-");
                s.append(p.as_str());
            },
            None => {},
        }
        proof {
            reveal_strlit(".");
            reveal_strlit("-");
        }
        s
    }
}

/// A release outranks each of its pre-releases.
pub proof fn lemma_release_outranks_pre(v: Version)
    requires
        v.pre is Some,
    ensures
        version_le(v, Version { pre: None, ..v }),
        !version_le(Version { pre: None, ..v }, v),
{
}

pub open spec fn is_digit(c: char) -> bool {
    '0' <= c && c <= '9'
}

/// The number that a sequence of decimal digits denotes.
pub open spec fn digits_value(s: Seq<char>) -> nat
    decreases s.len(),
{
    if s.len() == 0 {
        0
    } else {
        digits_value(s.drop_last()) * 10 + (s.last() as nat - '0' as nat) as nat
    }
}

/// A number as semantic versioning writes it: digits only, and no leading zero but in `0`.
pub open spec fn is_numeral(s: Seq<char>) -> bool {
    &&& s.len() > 0
    &&& forall|i: int| 0 <= i < s.len() ==> is_digit(#[trigger] s[i])
    &&& (s.len() > 1 ==> s[0] != '0')
}

/// `s` is `a.b.c` with three numerals that fit in a `u64`, denoting `v`'s `major.minor.patch`.
pub open spec fn is_core_text(s: Seq<char>, v: Version) -> bool {
    exists|i: int, j: int|
        0 < i && i + 1 < j && j + 1 < s.len() && s[i] == '.' && s[j] == '.'
            && is_numeral(#[trigger] s.subrange(0, i)) && is_numeral(#[trigger] s.subrange(i + 1, j))
            && is_numeral(#[trigger] s.subrange(j + 1, s.len() as int))
            && digits_value(s.subrange(0, i)) == v.major
            && digits_value(s.subrange(i + 1, j)) == v.minor
            && digits_value(s.subrange(j + 1, s.len() as int)) == v.patch
}

/// A character that a pre-release part may hold.
pub open spec fn is_pre_char(c: char) -> bool {
    is_digit(c) || ('a' <= c && c <= 'z') || ('A' <= c && c <= 'Z') || c == '-' || c == '.'
}

/// A pre-release part: non-empty dot-separated identifiers of ASCII letters, digits and `-`.
pub open spec fn is_pre_text(p: Seq<char>) -> bool {
    &&& p.len() > 0
    &&& p[0] != '.'
    &&& p[p.len() - 1] != '.'
    &&& forall|k: int| 0 <= k < p.len() ==> is_pre_char(#[trigger] p[k])
    &&& forall|k: int| 0 <= k < p.len() - 1 ==> !(#[trigger] p[k] == '.' && p[k + 1] == '.')
}

/// `s` is the text of `v`: `a.b.c`, followed by `-` and a pre-release part when `v` has one.
pub open spec fn is_version_text(s: Seq<char>, v: Version) -> bool {
    match v.pre {
        None => is_core_text(s, v),
        Some(p) => exists|d: int|
            0 <= d < s.len() && s[d] == '-' && #[trigger] is_core_text(s.take(d), v) && s.skip(d + 1)
                == p@ && is_pre_text(p@),
    }
}

/// A version core holds no `-`.
proof fn lemma_core_has_no_dash(t: Seq<char>, v: Version, k: int)
    requires
        is_core_text(t, v),
        0 <= k < t.len(),
    ensures
        t[k] != '-',
{
    let (i, j) = choose|i: int, j: int|
        0 < i && i + 1 < j && j + 1 < t.len() && t[i] == '.' && t[j] == '.'
            && is_numeral(#[trigger] t.subrange(0, i)) && is_numeral(#[trigger] t.subrange(i + 1, j))
            && is_numeral(#[trigger] t.subrange(j + 1, t.len() as int))
            && digits_value(t.subrange(0, i)) == v.major
            && digits_value(t.subrange(i + 1, j)) == v.minor
            && digits_value(t.subrange(j + 1, t.len() as int)) == v.patch;
    if k < i {
        assert(is_digit(t.subrange(0, i)[k]));
    } else if i < k < j {
        assert(is_digit(t.subrange(i + 1, j)[k - i - 1]));
    } else if k > j {
        assert(is_digit(t.subrange(j + 1, t.len() as int)[k - j - 1]));
    }
}

/// Whether `p` is a pre-release part.
fn check_pre(p: &Vec<char>) -> (r: bool)
    ensures
        r == is_pre_text(p@),
{
    let n = p.len();
    if n == 0 || p[0] == '.' || p[n - 1] == '.' {
        return false;
    }
    let mut k: usize = 0;
    while k < n
        invariant
            n == p@.len(),
            0 <= k <= n,
            forall|j: int| 0 <= j < k ==> is_pre_char(#[trigger] p@[j]),
            forall|j: int| 0 <= j < k && j < n - 1 ==> !(#[trigger] p@[j] == '.' && p@[j + 1] == '.'),
        decreases n - k,
    {
        let c = p[k];
        if !(('0' <= c && c <= '9') || ('a' <= c && c <= 'z') || ('A' <= c && c <= 'Z') || c == '-' || c == '.') {
            assert(!is_pre_char(p@[k as int]));
            return false;
        }
        if k + 1 < n && c == '.' && p[k + 1] == '.' {
            return false;
        }
        k += 1;
    }
    true
}

/// The first `n` characters of `v`.
fn prefix_chars(v: &Vec<char>, n: usize) -> (r: Vec<char>)
    requires
        n <= v@.len(),
    ensures
        r@ == v@.take(n as int),
{
    let mut s: Vec<char> = Vec::new();
    let mut k: usize = 0;
    while k < n
        invariant
            0 <= k <= n <= v@.len(),
            s@ == v@.take(k as int),
        decreases n - k,
    {
        s.push(v[k]);
        assert(v@.take(k + 1) =~= v@.take(k as int).push(v@[k as int]));
        k += 1;
    }
    s
}

/// The characters of `v` from position `n` on.
fn suffix_chars(v: &Vec<char>, n: usize) -> (r: Vec<char>)
    requires
        n <= v@.len(),
    ensures
        r@ == v@.skip(n as int),
{
    let mut s: Vec<char> = Vec::new();
    let mut k: usize = n;
    while k < v.len()
        invariant
            n <= k <= v@.len(),
            s@ == v@.subrange(n as int, k as int),
        decreases v@.len() - k,
    {
        s.push(v[k]);
        assert(v@.subrange(n as int, k + 1) =~= v@.subrange(n as int, k as int).push(v@[k as int]));
        k += 1;
    }
    assert(v@.subrange(n as int, v@.len() as int) =~= v@.skip(n as int));
    s
}

/// Reads the numeral `s[from..to]`; `None` unless it is a numeral whose value fits in a `u64`.
fn parse_numeral(s: &Vec<char>, from: usize, to: usize) -> (r: Option<u64>)
    requires
        from <= to <= s@.len(),
    ensures
        r matches Some(n) ==> is_numeral(s@.subrange(from as int, to as int)) && digits_value(
            s@.subrange(from as int, to as int),
        ) == n,
        r is None ==> !is_numeral(s@.subrange(from as int, to as int)) || digits_value(
            s@.subrange(from as int, to as int),
        ) > u64::MAX,
{
    let ghost t = s@.subrange(from as int, to as int);
    if from == to {
        return None;
    }
    if to - from > 1 && s[from] == '0' {
        return None;
    }
    let mut n: u64 = 0;
    let mut k: usize = from;
    while k < to
        invariant
            from <= k <= to <= s@.len(),
            t == s@.subrange(from as int, to as int),
            forall|i: int| from <= i < k ==> is_digit(#[trigger] s@[i]),
            n == digits_value(s@.subrange(from as int, k as int)),
        decreases to - k,
    {
        let c = s[k];
        let ghost prefix = s@.subrange(from as int, k + 1);
        assert(prefix.drop_last() =~= s@.subrange(from as int, k as int));
        if !('0' <= c && c <= '9') {
            assert(!is_digit(t[k - from]));
            return None;
        }
        let d = (c as u32 - '0' as u32) as u64;
        if n > (u64::MAX - d) / 10 {
            proof {
                assert(n * 10 + d > u64::MAX) by (nonlinear_arith)
                    requires
                        n > (u64::MAX - d) / 10,
                        d <= 9,
                ;
                assert(is_digit(c));
                assert(digits_value(prefix) == n * 10 + d);
                if is_numeral(t) {
                    lemma_digits_value_grows(t, (k + 1 - from) as int);
                    assert(t.subrange(0, (k + 1 - from) as int) =~= prefix);
                }
            }
            return None;
        }
        n = n * 10 + d;
        k += 1;
    }
    assert(t =~= s@.subrange(from as int, k as int));
    Some(n)
}

/// The value of a prefix of a digit sequence never exceeds the value of the whole.
proof fn lemma_digits_value_grows(s: Seq<char>, m: int)
    requires
        0 <= m <= s.len(),
        forall|i: int| 0 <= i < s.len() ==> is_digit(#[trigger] s[i]),
    ensures
        digits_value(s.subrange(0, m)) <= digits_value(s),
    decreases s.len() - m,
{
    if m < s.len() {
        lemma_digits_value_grows(s, m + 1);
        assert(s.subrange(0, m + 1).drop_last() =~= s.subrange(0, m));
    } else {
        assert(s.subrange(0, m) =~= s);
    }
}

/// The characters of a string, in order.
pub fn chars_of(s: &str) -> (r: Vec<char>)
    ensures
        r@ == s@,
{
    let n = s.unicode_len();
    let mut out: Vec<char> = Vec::new();
    let mut i: usize = 0;
    while i < n
        invariant
            n == s@.len(),
            0 <= i <= n,
            out@ == s@.take(i as int),
        decreases n - i,
    {
        out.push(s.get_char(i));
        assert(s@.take(i + 1) =~= s@.take(i as int).push(s@[i as int]));
        i += 1;
    }
    assert(s@.take(n as int) =~= s@);
    out
}


/// The first position at or after `from` that holds `c`, or the length.
fn find_char(s: &Vec<char>, from: usize, c: char) -> (r: usize)
    requires
        from <= s@.len(),
    ensures
        from <= r <= s@.len(),
        r < s@.len() ==> s@[r as int] == c,
        forall|i: int| from <= i < r ==> s@[i] != c,
{
    let mut k = from;
    while k < s.len()
        invariant
            from <= k <= s@.len(),
            forall|i: int| from <= i < k ==> s@[i] != c,
        decreases s@.len() - k,
    {
        if s[k] == c {
            return k;
        }
        k += 1;
    }
    k
}

/// The text before the first `+`: build metadata, which plays no part in precedence, is cut off.
pub open spec fn without_build(s: Seq<char>) -> Seq<char> {
    if exists|k: int| 0 <= k < s.len() && s[k] == '+' {
        s.take(choose|k: int| 0 <= k < s.len() && s[k] == '+' && forall|j: int| 0 <= j < k ==> s[j] != '+')
    } else {
        s
    }
}

/// Reads a version written `major.minor.patch`, each part a numeral without leading zeros
/// that fits in a `u64`, optionally followed by `-` and a pre-release part, and by `+` and build
/// metadata, which is ignored.
pub fn parse_version(text: &str) -> (r: Option<Version>)
    ensures
        r matches Some(v) ==> is_version_text(without_build(text@), v),
        r is None ==> forall|v: Version| !is_version_text(without_build(text@), v),
{
    let all = chars_of(text);
    let p = find_char(&all, 0, '+');
    let s = prefix_chars(&all, p);
    proof {
        if p < all@.len() {
            let c = choose|c: int| 0 <= c < all@.len() && all@[c] == '+' && forall|j: int| 0 <= j < c ==> all@[j] != '+';
            assert(c == p as int) by {
                if c < p {
                } else if c > p {
                    assert(all@[p as int] == '+');
                }
            }
        } else {
            assert(all@.take(p as int) =~= all@);
        }
    }
    parse_text(&s)
}

/// Reads `major.minor.patch` with an optional `-pre` from the characters `s`.
fn parse_text(s: &Vec<char>) -> (r: Option<Version>)
    ensures
        r matches Some(v) ==> is_version_text(s@, v),
        r is None ==> forall|v: Version| !is_version_text(s@, v),
{
    let d = find_char(s, 0, '-');
    let core = prefix_chars(s, d);
    proof {
        assert forall|v: Version, e: int| 0 <= e < s@.len() && s@[e] == '-' && #[trigger] is_core_text(s@.take(e), v) implies e == d by {
            if d < e {
                lemma_core_has_no_dash(s@.take(e), v, d as int);
            } else if e < d {
            }
        }
        if d == s@.len() {
            assert(core@ =~= s@);
        }
    }
    match parse_core(&core) {
        None => {
            proof {
                assert forall|v: Version| !is_version_text(s@, v) by {
                    if v.pre is None && is_core_text(s@, v) && d < s@.len() {
                        lemma_core_has_no_dash(s@, v, d as int);
                    }
                }
            }
            None
        },
        Some(v) => {
            if d == s.len() {
                return Some(v);
            }
            let pre = suffix_chars(s, d + 1);
            if !check_pre(&pre) {
                proof {
                    assert forall|w: Version| !is_version_text(s@, w) by {
                        if w.pre is None && is_core_text(s@, w) {
                            lemma_core_has_no_dash(s@, w, d as int);
                        }
                    }
                }
                return None;
            }
            let text = string_of(&pre);
            let r = Version { major: v.major, minor: v.minor, patch: v.patch, pre: Some(text) };
            assert(is_core_text(s@.take(d as int), r));
            Some(r)
        },
    }
}

/// Reads `major.minor.patch` from the characters `s`; the result has no pre-release part.
fn parse_core(s: &Vec<char>) -> (r: Option<Version>)
    ensures
        r matches Some(v) ==> is_core_text(s@, v) && v.pre is None,
        r is None ==> forall|v: Version| !is_core_text(s@, v),
{
    let ghost text = s@;
    let i = find_char(s, 0, '.');
    if i >= s.len() {
        proof { lemma_no_version_without_dots(text, i as int, 0); }
        return None;
    }
    let j = find_char(s, i + 1, '.');
    if j >= s.len() {
        proof { lemma_no_version_without_dots(text, i as int, j as int); }
        return None;
    }
    let major = parse_numeral(s, 0, i);
    let minor = parse_numeral(s, i + 1, j);
    let patch = parse_numeral(s, j + 1, s.len());
    match (major, minor, patch) {
        (Some(a), Some(b), Some(c)) => {
            if i == 0 || j == i + 1 || j + 1 == s.len() {
                return None;
            }
            let v = Version { major: a, minor: b, patch: c, pre: None };
            assert(is_core_text(text, v)) by {
                assert(is_numeral(s@.subrange(0, i as int)));
            }
            Some(v)
        },
        _ => {
            proof { lemma_dots_fix_version(text, i as int, j as int); }
            None
        },
    }
}

/// A numeral holds no dot.
proof fn lemma_numeral_has_no_dot(s: Seq<char>, k: int)
    requires
        is_numeral(s),
        0 <= k < s.len(),
    ensures
        s[k] != '.',
{
    assert(is_digit(s[k]));
}

/// Without two dots there is no version text.
proof fn lemma_no_version_without_dots(s: Seq<char>, i: int, j: int)
    requires
        0 <= i <= s.len(),
        forall|k: int| 0 <= k < i ==> s[k] != '.',
        i < s.len() ==> s[i] == '.' && i + 1 <= j <= s.len() && (forall|k: int| i + 1 <= k < j ==> s[k] != '.') && j == s.len(),
        i == s.len() ==> j == 0,
    ensures
        forall|v: Version| !is_core_text(s, v),
{
    assert forall|v: Version| !is_core_text(s, v) by {
        if is_core_text(s, v) {
            let (a, b) = choose|a: int, b: int|
                0 < a && a + 1 < b && b + 1 < s.len() && s[a] == '.' && s[b] == '.'
                    && is_numeral(#[trigger] s.subrange(0, a)) && is_numeral(#[trigger] s.subrange(a + 1, b))
                    && is_numeral(#[trigger] s.subrange(b + 1, s.len() as int))
                    && digits_value(s.subrange(0, a)) == v.major
                    && digits_value(s.subrange(a + 1, b)) == v.minor
                    && digits_value(s.subrange(b + 1, s.len() as int)) == v.patch;
            if a < i {
            } else if a > i {
                lemma_numeral_has_no_dot(s.subrange(0, a), i);
            } else {
                if b < j {
                } else {
                }
            }
        }
    }
}

/// The first two dots split any version text.
proof fn lemma_dots_fix_version(s: Seq<char>, i: int, j: int)
    requires
        0 <= i < j < s.len(),
        s[i] == '.',
        s[j] == '.',
        forall|k: int| 0 <= k < i ==> s[k] != '.',
        forall|k: int| i + 1 <= k < j ==> s[k] != '.',
    ensures
        forall|v: Version| #[trigger] is_core_text(s, v) ==> is_numeral(s.subrange(0, i)) && is_numeral(s.subrange(i + 1, j))
            && is_numeral(s.subrange(j + 1, s.len() as int))
            && digits_value(s.subrange(0, i)) == v.major
            && digits_value(s.subrange(i + 1, j)) == v.minor
            && digits_value(s.subrange(j + 1, s.len() as int)) == v.patch,
{
    assert forall|v: Version| #[trigger] is_core_text(s, v) implies is_numeral(s.subrange(0, i)) && is_numeral(s.subrange(i + 1, j))
            && is_numeral(s.subrange(j + 1, s.len() as int))
            && digits_value(s.subrange(0, i)) == v.major
            && digits_value(s.subrange(i + 1, j)) == v.minor
            && digits_value(s.subrange(j + 1, s.len() as int)) == v.patch by {
        let (a, b) = choose|a: int, b: int|
            0 < a && a + 1 < b && b + 1 < s.len() && s[a] == '.' && s[b] == '.'
                && is_numeral(#[trigger] s.subrange(0, a)) && is_numeral(#[trigger] s.subrange(a + 1, b))
                && is_numeral(#[trigger] s.subrange(b + 1, s.len() as int))
                && digits_value(s.subrange(0, a)) == v.major
                && digits_value(s.subrange(a + 1, b)) == v.minor
                && digits_value(s.subrange(b + 1, s.len() as int)) == v.patch;
        if a > i {
            lemma_numeral_has_no_dot(s.subrange(0, a), i);
        }
        assert(a == i);
        if b > j {
            lemma_numeral_has_no_dot(s.subrange(a + 1, b), j - a - 1);
        }
        assert(b == j);
    }
}

} // verus!
