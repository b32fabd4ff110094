use vstd::prelude::*;
use crate::version::is_digit;

verus! {

/// Lexicographic comparison of texts by character code: -1, 0 or 1.
pub open spec fn text_cmp(x: Seq<char>, y: Seq<char>) -> int
    decreases x.len(),
{
    if x.len() == 0 {
        if y.len() == 0 { 0 } else { -1 }
    } else if y.len() == 0 {
        1
    } else if x[0] != y[0] {
        if (x[0] as u32) < (y[0] as u32) { -1 } else { 1 }
    } else {
        text_cmp(x.skip(1), y.skip(1))
    }
}

/// A numeral without its leading zeros.
pub open spec fn strip_zeros(x: Seq<char>) -> Seq<char>
    decreases x.len(),
{
    if x.len() > 0 && x[0] == '0' {
        strip_zeros(x.skip(1))
    } else {
        x
    }
}

/// An identifier made of digits only.
pub open spec fn is_numeric(x: Seq<char>) -> bool {
    x.len() > 0 && forall|i: int| 0 <= i < x.len() ==> is_digit(#[trigger] x[i])
}

/// Numerals compare by value: without leading zeros, a longer numeral is larger, and numerals
/// of one length compare digit by digit.
pub open spec fn numeric_cmp(x: Seq<char>, y: Seq<char>) -> int {
    let a = strip_zeros(x);
    let b = strip_zeros(y);
    if a.len() < b.len() {
        -1
    } else if a.len() > b.len() {
        1
    } else {
        text_cmp(a, b)
    }
}

/// Precedence of two pre-release identifiers: numeric ones by value, numeric below
/// alphanumeric, alphanumeric ones lexically.
pub open spec fn ident_cmp(x: Seq<char>, y: Seq<char>) -> int {
    if is_numeric(x) && is_numeric(y) {
        numeric_cmp(x, y)
    } else if is_numeric(x) {
        -1
    } else if is_numeric(y) {
        1
    } else {
        text_cmp(x, y)
    }
}

/// The length of the first dot-separated identifier of `s`.
pub open spec fn ident_len(s: Seq<char>) -> nat
    decreases s.len(),
{
    if s.len() == 0 || s[0] == '.' {
        0
    } else {
        1 + ident_len(s.skip(1))
    }
}

/// Precedence of two pre-release texts (dot-separated identifiers): identifiers compare field
/// by field, and when all of the shorter list's match, the longer list is larger.
pub open spec fn pre_cmp(a: Seq<char>, b: Seq<char>) -> int
    decreases a.len(),
{
    let la = ident_len(a);
    let lb = ident_len(b);
    let c = ident_cmp(a.take(la as int), b.take(lb as int));
    if c != 0 {
        c
    } else if la >= a.len() && lb >= b.len() {
        0
    } else if la >= a.len() {
        -1
    } else if lb >= b.len() {
        1
    } else {
        pre_cmp(a.skip(la + 1int), b.skip(lb + 1int))
    }
}

proof fn lemma_ident_len_bound(s: Seq<char>)
    ensures
        ident_len(s) <= s.len(),
        ident_len(s) < s.len() ==> s[ident_len(s) as int] == '.',
    decreases s.len(),
{
    if s.len() > 0 && s[0] != '.' {
        lemma_ident_len_bound(s.skip(1));
    }
}

fn text_cmp_at(x: &Vec<char>, xi: usize, xe: usize, y: &Vec<char>, yi: usize, ye: usize) -> (r: i8)
    requires
        xi <= xe <= x@.len(),
        yi <= ye <= y@.len(),
    ensures
        r as int == text_cmp(x@.subrange(xi as int, xe as int), y@.subrange(yi as int, ye as int)),
    decreases xe - xi,
{
    let ghost sx = x@.subrange(xi as int, xe as int);
    let ghost sy = y@.subrange(yi as int, ye as int);
    if xi == xe {
        if yi == ye { 0 } else { -1 }
    } else if yi == ye {
        1
    } else if x[xi] != y[yi] {
        if (x[xi] as u32) < (y[yi] as u32) { -1 } else { 1 }
    } else {
        assert(sx.skip(1) =~= x@.subrange(xi + 1, xe as int));
        assert(sy.skip(1) =~= y@.subrange(yi + 1, ye as int));
        text_cmp_at(x, xi + 1, xe, y, yi + 1, ye)
    }
}

fn skip_zeros(x: &Vec<char>, i: usize, e: usize) -> (r: usize)
    requires
        i <= e <= x@.len(),
    ensures
        i <= r <= e,
        x@.subrange(r as int, e as int) == strip_zeros(x@.subrange(i as int, e as int)),
    decreases e - i,
{
    if i < e && x[i] == '0' {
        assert(x@.subrange(i as int, e as int).skip(1) =~= x@.subrange(i + 1, e as int));
        skip_zeros(x, i + 1, e)
    } else {
        i
    }
}

fn is_numeric_at(x: &Vec<char>, i: usize, e: usize) -> (r: bool)
    requires
        i <= e <= x@.len(),
    ensures
        r == is_numeric(x@.subrange(i as int, e as int)),
{
    if i == e {
        return false;
    }
    let mut k = i;
    while k < e
        invariant
            i <= k <= e <= x@.len(),
            forall|j: int| i <= j < k ==> is_digit(#[trigger] x@[j]),
        decreases e - k,
    {
        if !('0' <= x[k] && x[k] <= '9') {
            assert(!is_digit(x@.subrange(i as int, e as int)[k - i]));
            return false;
        }
        k += 1;
    }
    assert forall|j: int| 0 <= j < e - i implies is_digit(#[trigger] x@.subrange(i as int, e as int)[j]) by {
        assert(x@.subrange(i as int, e as int)[j] == x@[i + j]);
    }
    true
}

fn ident_cmp_at(x: &Vec<char>, xi: usize, xe: usize, y: &Vec<char>, yi: usize, ye: usize) -> (r: i8)
    requires
        xi <= xe <= x@.len(),
        yi <= ye <= y@.len(),
    ensures
        r as int == ident_cmp(x@.subrange(xi as int, xe as int), y@.subrange(yi as int, ye as int)),
{
    let nx = is_numeric_at(x, xi, xe);
    let ny = is_numeric_at(y, yi, ye);
    if nx && ny {
        let a = skip_zeros(x, xi, xe);
        let b = skip_zeros(y, yi, ye);
        if xe - a < ye - b {
            -1
        } else if xe - a > ye - b {
            1
        } else {
            text_cmp_at(x, a, xe, y, b, ye)
        }
    } else if nx {
        -1
    } else if ny {
        1
    } else {
        text_cmp_at(x, xi, xe, y, yi, ye)
    }
}

fn ident_end(x: &Vec<char>, i: usize) -> (r: usize)
    requires
        i <= x@.len(),
    ensures
        i <= r <= x@.len(),
        r - i == ident_len(x@.subrange(i as int, x@.len() as int)),
    decreases x@.len() - i,
{
    if i == x.len() || x[i] == '.' {
        i
    } else {
        assert(x@.subrange(i as int, x@.len() as int).skip(1) =~= x@.subrange(i + 1, x@.len() as int));
        ident_end(x, i + 1)
    }
}

/// Compares the pre-release texts `a[ai..]` and `b[bi..]` by precedence.
fn pre_cmp_at(a: &Vec<char>, ai: usize, b: &Vec<char>, bi: usize) -> (r: i8)
    requires
        ai <= a@.len(),
        bi <= b@.len(),
    ensures
        r as int == pre_cmp(a@.subrange(ai as int, a@.len() as int), b@.subrange(bi as int, b@.len() as int)),
    decreases a@.len() - ai,
{
    let ghost sa = a@.subrange(ai as int, a@.len() as int);
    let ghost sb = b@.subrange(bi as int, b@.len() as int);
    let ea = ident_end(a, ai);
    let eb = ident_end(b, bi);
    proof {
        lemma_ident_len_bound(sa);
        lemma_ident_len_bound(sb);
        assert(sa.take(ident_len(sa) as int) =~= a@.subrange(ai as int, ea as int));
        assert(sb.take(ident_len(sb) as int) =~= b@.subrange(bi as int, eb as int));
    }
    let c = ident_cmp_at(a, ai, ea, b, bi, eb);
    if c != 0 {
        c
    } else if ea == a.len() && eb == b.len() {
        0
    } else if ea == a.len() {
        -1
    } else if eb == b.len() {
        1
    } else {
        assert(sa.skip(ident_len(sa) + 1int) =~= a@.subrange(ea + 1, a@.len() as int));
        assert(sb.skip(ident_len(sb) + 1int) =~= b@.subrange(eb + 1, b@.len() as int));
        pre_cmp_at(a, ea + 1, b, eb + 1)
    }
}

/// Compares two pre-release texts by precedence: -1, 0 or 1.
pub fn compare_pre(a: &Vec<char>, b: &Vec<char>) -> (r: i8)
    ensures
        r as int == pre_cmp(a@, b@),
{
    assert(a@.subrange(0, a@.len() as int) =~= a@);
    assert(b@.subrange(0, b@.len() as int) =~= b@);
    pre_cmp_at(a, 0, b, 0)
}

} // verus!
