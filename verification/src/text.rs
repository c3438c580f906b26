//! Character-level text operations with their mathematical meaning: Unicode
//! white space, trimming, ASCII case folding and prefix tests.

use vstd::prelude::*;

verus! {

/// The Unicode `White_Space` property, which `char::is_whitespace` tests.
pub open spec fn is_ws(c: char) -> bool {
    let v = c as u32;
    ||| 0x09 <= v <= 0x0D
    ||| v == 0x20
    ||| v == 0x85
    ||| v == 0xA0
    ||| v == 0x1680
    ||| 0x2000 <= v <= 0x200A
    ||| v == 0x2028
    ||| v == 0x2029
    ||| v == 0x202F
    ||| v == 0x205F
    ||| v == 0x3000
}

/// `s` without its leading white space.
pub open spec fn trim_start(s: Seq<char>) -> Seq<char>
    decreases s.len(),
{
    if s.len() > 0 && is_ws(s[0]) {
        trim_start(s.drop_first())
    } else {
        s
    }
}

/// `s` without its trailing white space.
pub open spec fn trim_end(s: Seq<char>) -> Seq<char>
    decreases s.len(),
{
    if s.len() > 0 && is_ws(s.last()) {
        trim_end(s.drop_last())
    } else {
        s
    }
}

/// `s` without white space at either end (what `str::trim` returns).
pub open spec fn trimmed(s: Seq<char>) -> Seq<char> {
    trim_end(trim_start(s))
}

/// The code of `c` with ASCII upper-case letters folded to lower case.
pub open spec fn fold_code(c: char) -> u32 {
    let v = c as u32;
    if 65 <= v <= 90 {
        (v + 32) as u32
    } else {
        v
    }
}

/// Equality up to ASCII case, as `str::eq_ignore_ascii_case` decides it.
pub open spec fn eq_ci(a: Seq<char>, b: Seq<char>) -> bool {
    &&& a.len() == b.len()
    &&& forall|i: int| 0 <= i < a.len() ==> #[trigger] fold_code(a[i]) == fold_code(b[i])
}

/// Whether `s` begins with `p`.
pub open spec fn has_prefix(s: Seq<char>, p: Seq<char>) -> bool {
    p.len() <= s.len() && s.take(p.len() as int) == p
}

/// Whether `c` is white space (`char::is_whitespace`).
pub fn is_whitespace(c: char) -> (r: bool)
    ensures
        r == is_ws(c),
{
    let v: u32 = c as u32;
    (0x09 <= v && v <= 0x0D) || v == 0x20 || v == 0x85 || v == 0xA0 || v == 0x1680 || (0x2000
        <= v && v <= 0x200A) || v == 0x2028 || v == 0x2029 || v == 0x202F || v == 0x205F || v
        == 0x3000
}

/// The characters of `s`, in order.
pub fn to_chars(s: &str) -> (v: Vec<char>)
    ensures
        v@ == s@,
{
    let n: usize = s.unicode_len();
    let mut v: Vec<char> = Vec::new();
    let mut i: usize = 0;
    while i < n
        invariant
            n == s@.len(),
            i <= n,
            v@ == s@.take(i as int),
        decreases n - i,
    {
        let c = s.get_char(i);
        v.push(c);
        i = i + 1;
        assert(v@ =~= s@.take(i as int));
    }
    assert(v@ =~= s@);
    v
}

/// `s` without white space at either end.
pub fn trim(s: &str) -> (r: String)
    ensures
        r@ == trimmed(s@),
{
    let v = to_chars(s);
    let (a, b) = trim_range(&v, 0, v.len());
    assert(v@.subrange(0, v@.len() as int) =~= v@);
    String::from_str(s.substring_char(a, b))
}

/// Whether two characters are equal up to ASCII case.
pub fn char_eq_ci(a: char, b: char) -> (r: bool)
    ensures
        r == (fold_code(a) == fold_code(b)),
{
    let x: u32 = a as u32;
    let y: u32 = b as u32;
    let fx: u32 = if 65 <= x && x <= 90 {
        x + 32
    } else {
        x
    };
    let fy: u32 = if 65 <= y && y <= 90 {
        y + 32
    } else {
        y
    };
    fx == fy
}

/// Whether two character vectors are equal up to ASCII case.
pub fn chars_eq_ci(a: &Vec<char>, b: &Vec<char>) -> (r: bool)
    ensures
        r == eq_ci(a@, b@),
{
    if a.len() != b.len() {
        return false;
    }
    let mut i: usize = 0;
    while i < a.len()
        invariant
            a.len() == b.len(),
            i <= a.len(),
            forall|k: int| 0 <= k < i ==> #[trigger] fold_code(a@[k]) == fold_code(b@[k]),
        decreases a.len() - i,
    {
        if !char_eq_ci(a[i], b[i]) {
            return false;
        }
        i = i + 1;
    }
    true
}

/// Whether `a` and `b` are equal up to ASCII case (`str::eq_ignore_ascii_case`).
pub fn eq_ignore_ascii_case(a: &str, b: &str) -> (r: bool)
    ensures
        r == eq_ci(a@, b@),
{
    let va = to_chars(a);
    let vb = to_chars(b);
    chars_eq_ci(&va, &vb)
}

/// Whether the part `[start, end)` of `v` begins with the characters of `p`.
pub fn starts_with_at(v: &Vec<char>, start: usize, end: usize, p: &str) -> (r: bool)
    requires
        start <= end <= v.len(),
    ensures
        r == has_prefix(v@.subrange(start as int, end as int), p@),
{
    let pv = to_chars(p);
    let ghost line = v@.subrange(start as int, end as int);
    if pv.len() > end - start {
        return false;
    }
    let mut i: usize = 0;
    while i < pv.len()
        invariant
            start <= end <= v.len(),
            line == v@.subrange(start as int, end as int),
            pv@ == p@,
            pv.len() <= end - start,
            i <= pv.len(),
            forall|k: int| 0 <= k < i ==> v@[start + k] == pv@[k],
        decreases pv.len() - i,
    {
        if v[start + i] != pv[i] {
            assert(line.take(pv.len() as int)[i as int] != pv@[i as int]);
            return false;
        }
        i = i + 1;
    }
    assert(line.take(pv.len() as int) =~= pv@);
    true
}

/// The bounds `(a, b)` of what trimming keeps of the part `[lo, hi)` of `v`.
pub fn trim_range(v: &Vec<char>, lo: usize, hi: usize) -> (r: (usize, usize))
    requires
        lo <= hi <= v.len(),
    ensures
        lo <= r.0 <= r.1 <= hi,
        v@.subrange(r.0 as int, r.1 as int) == trimmed(v@.subrange(lo as int, hi as int)),
{
    let ghost s = v@.subrange(lo as int, hi as int);
    let mut i: usize = lo;
    assert(s.skip(0) =~= s);
    while i < hi && is_whitespace(v[i])
        invariant
            lo <= i <= hi <= v.len(),
            s == v@.subrange(lo as int, hi as int),
            trim_start(s) == trim_start(s.skip(i - lo)),
        decreases hi - i,
    {
        assert(s.skip(i + 1 - lo) =~= s.skip(i - lo).drop_first());
        i = i + 1;
    }
    assert(trim_start(s) == s.skip(i - lo)) by {
        if i == hi {
            assert(s.skip(i - lo).len() == 0);
        } else {
            assert(s.skip(i - lo)[0] == v@[i as int]);
        }
    }
    assert(s.skip(i - lo) =~= v@.subrange(i as int, hi as int));
    let mut j: usize = hi;
    while j > i && is_whitespace(v[j - 1])
        invariant
            lo <= i <= j <= hi <= v.len(),
            s == v@.subrange(lo as int, hi as int),
            trimmed(s) == trim_end(v@.subrange(i as int, j as int)),
        decreases j,
    {
        assert(v@.subrange(i as int, j - 1) =~= v@.subrange(i as int, j as int).drop_last());
        j = j - 1;
    }
    assert(trim_end(v@.subrange(i as int, j as int)) == v@.subrange(i as int, j as int)) by {
        if j > i {
            assert(v@.subrange(i as int, j as int).last() == v@[j - 1]);
        }
    }
    (i, j)
}

/// Position of the first `c` in `s`, or the length of `s` when there is none.
pub open spec fn find_char(s: Seq<char>, c: char) -> nat
    decreases s.len(),
{
    if s.len() == 0 {
        0
    } else if s[0] == c {
        0
    } else {
        1 + find_char(s.drop_first(), c)
    }
}

/// `find_char` is the first occurrence: every earlier character differs, and
/// the position holds `c` unless it is the end.
pub proof fn lemma_find_char(s: Seq<char>, c: char)
    ensures
        find_char(s, c) <= s.len(),
        find_char(s, c) < s.len() ==> s[find_char(s, c) as int] == c,
        forall|i: int| 0 <= i < find_char(s, c) ==> s[i] != c,
    decreases s.len(),
{
    if s.len() > 0 && s[0] != c {
        lemma_find_char(s.drop_first(), c);
        assert forall|i: int| 0 <= i < find_char(s, c) implies s[i] != c by {
            if i > 0 {
                assert(s[i] == s.drop_first()[i - 1]);
            }
        }
    }
}

/// A position `k` with no `c` before it and `c` (or the end) at it is
/// `find_char`.
pub proof fn lemma_find_char_at(s: Seq<char>, c: char, k: int)
    requires
        0 <= k <= s.len(),
        forall|i: int| 0 <= i < k ==> s[i] != c,
        k == s.len() || s[k] == c,
    ensures
        find_char(s, c) == k,
    decreases k,
{
    if k > 0 {
        assert forall|i: int| 0 <= i < k - 1 implies s.drop_first()[i] != c by {
            assert(s.drop_first()[i] == s[i + 1]);
        }
        lemma_find_char_at(s.drop_first(), c, k - 1);
    }
}

/// Position of the first `c` in the part `[lo, hi)` of `v`, or `hi`.
pub fn find_char_in(v: &Vec<char>, lo: usize, hi: usize, c: char) -> (r: usize)
    requires
        lo <= hi <= v.len(),
    ensures
        lo <= r <= hi,
        r - lo == find_char(v@.subrange(lo as int, hi as int), c),
{
    let ghost s = v@.subrange(lo as int, hi as int);
    let mut k: usize = lo;
    while k < hi && v[k] != c
        invariant
            lo <= k <= hi <= v.len(),
            s == v@.subrange(lo as int, hi as int),
            forall|i: int| 0 <= i < k - lo ==> s[i] != c,
        decreases hi - k,
    {
        k = k + 1;
    }
    proof {
        lemma_find_char_at(s, c, k - lo);
    }
    k
}

/// Whether `a` and `b` hold the same characters.
pub fn str_eq(a: &str, b: &str) -> (r: bool)
    ensures
        r == (a@ == b@),
{
    let va = to_chars(a);
    let vb = to_chars(b);
    if va.len() != vb.len() {
        return false;
    }
    let mut i: usize = 0;
    while i < va.len()
        invariant
            va@ == a@,
            vb@ == b@,
            va.len() == vb.len(),
            i <= va.len(),
            forall|k: int| 0 <= k < i ==> va@[k] == vb@[k],
        decreases va.len() - i,
    {
        if va[i] != vb[i] {
            return false;
        }
        i = i + 1;
    }
    assert(va@ =~= vb@);
    true
}

/// Calls `String::push`. Claimed (as its documentation says): `c` is
/// appended to the end of `s`.
#[verifier::external_body]
pub(crate) fn push_char(s: &mut String, c: char)
    ensures
        final(s)@ == old(s)@.push(c),
{
    s.push(c)
}

/// Calls `String::pop`. Claimed (as its documentation says): the last
/// character is removed and returned, and `None` comes back for an empty
/// string, which stays unchanged.
#[verifier::external_body]
pub(crate) fn pop_char(s: &mut String) -> (r: Option<char>)
    ensures
        old(s)@.len() == 0 ==> r is None && final(s)@ == old(s)@,
        old(s)@.len() > 0 ==> r == Some(old(s)@.last()) && final(s)@ == old(s)@.drop_last(),
{
    s.pop()
}

/// Equality up to ASCII case is an equivalence.
pub proof fn lemma_eq_ci_equivalence(a: Seq<char>, b: Seq<char>, d: Seq<char>)
    ensures
        eq_ci(a, a),
        eq_ci(a, b) ==> eq_ci(b, a),
        eq_ci(a, b) && eq_ci(b, d) ==> eq_ci(a, d),
{
    if eq_ci(a, b) && eq_ci(b, d) {
        assert forall|i: int| 0 <= i < a.len() implies #[trigger] fold_code(a[i])
            == fold_code(d[i]) by {
            assert(fold_code(a[i]) == fold_code(b[i]));
            assert(fold_code(b[i]) == fold_code(d[i]));
        }
    }
    if eq_ci(a, b) {
        assert forall|i: int| 0 <= i < b.len() implies #[trigger] fold_code(b[i])
            == fold_code(a[i]) by {
            assert(fold_code(a[i]) == fold_code(b[i]));
        }
    }
}

} // verus!
