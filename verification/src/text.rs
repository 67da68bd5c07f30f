//! Conversions between Rust strings and character vectors.

use vstd::prelude::*;

verus! {

/// The characters of `s`, in order.
pub fn chars_of(s: &str) -> (res: Vec<char>)
    ensures
        res@ == s@,
{
    let mut res: Vec<char> = Vec::new();
    for c in it: s.chars()
        invariant
            res@ == it.seq().take(it.index() as int),
    {
        res.push(c);
    }
    res
}

/// The string made of the characters of `v`, in order (std's `String::from_iter`).
#[verifier::external_body]
pub(crate) fn string_from_chars(v: &Vec<char>) -> (res: String)
    ensures
        res@ == v@,
{
    String::from_iter(v.iter())
}

} // verus!

verus! {

/// Appends the characters of `s` to `out`.
pub fn push_str(out: &mut Vec<char>, s: &str)
    ensures
        final(out)@ == old(out)@ + s@,
{
    let cs = chars_of(s);
    let ghost before = out@;
    let mut i: usize = 0;
    while i < cs.len()
        invariant
            i <= cs@.len(),
            cs@ == s@,
            out@ == before + cs@.take(i as int),
        decreases cs.len() - i,
    {
        out.push(cs[i]);
        i = i + 1;
        assert(out@ =~= before + cs@.take(i as int));
    }
    assert(cs@.take(cs@.len() as int) =~= cs@);
}

/// Whether two character vectors hold the same characters.
pub fn chars_eq(a: &Vec<char>, b: &Vec<char>) -> (res: bool)
    ensures
        res == (a@ == b@),
{
    if a.len() != b.len() {
        return false;
    }
    let mut i: usize = 0;
    while i < a.len()
        invariant
            i <= a@.len(),
            a@.len() == b@.len(),
            forall|k: int| 0 <= k < i ==> a@[k] == b@[k],
        decreases a.len() - i,
    {
        if a[i] != b[i] {
            return false;
        }
        i = i + 1;
    }
    assert(a@ =~= b@);
    true
}

/// Whether two strings hold the same characters.
pub fn str_eq(a: &str, b: &str) -> (res: bool)
    ensures
        res == (a@ == b@),
{
    let ca = chars_of(a);
    let cb = chars_of(b);
    chars_eq(&ca, &cb)
}

} // verus!

verus! {

/// Unicode `White_Space`, the characters `char::is_whitespace` accepts.
pub open spec fn is_white_space(c: char) -> bool {
    ('\u{9}' <= c <= '\u{d}') || c == ' ' || c == '\u{85}' || c == '\u{a0}' || c == '\u{1680}'
        || ('\u{2000}' <= c <= '\u{200a}') || c == '\u{2028}' || c == '\u{2029}' || c == '\u{202f}'
        || c == '\u{205f}' || c == '\u{3000}'
}

pub fn is_white_space_exec(c: char) -> (res: bool)
    ensures
        res == is_white_space(c),
{
    ('\u{9}' <= c && c <= '\u{d}') || c == ' ' || c == '\u{85}' || c == '\u{a0}' || c == '\u{1680}'
        || ('\u{2000}' <= c && c <= '\u{200a}') || c == '\u{2028}' || c == '\u{2029}' || c == '\u{202f}'
        || c == '\u{205f}' || c == '\u{3000}'
}

/// Number of leading white-space characters.
pub open spec fn leading_ws(s: Seq<char>) -> nat
    decreases s.len(),
{
    if s.len() > 0 && is_white_space(s[0]) { 1 + leading_ws(s.skip(1)) } else { 0 }
}

/// Number of trailing white-space characters.
pub open spec fn trailing_ws(s: Seq<char>) -> nat
    decreases s.len(),
{
    if s.len() > 0 && is_white_space(s.last()) { 1 + trailing_ws(s.drop_last()) } else { 0 }
}

/// `s` without its leading and trailing white space (what `str::trim` returns).
pub open spec fn trim(s: Seq<char>) -> Seq<char> {
    let t = s.skip(leading_ws(s) as int);
    t.take(t.len() - trailing_ws(t))
}

proof fn lemma_leading_ws(s: Seq<char>, i: int)
    requires
        0 <= i <= s.len(),
        forall|k: int| 0 <= k < i ==> is_white_space(#[trigger] s[k]),
    ensures
        leading_ws(s) == i + leading_ws(s.skip(i)),
    decreases i,
{
    if i > 0 {
        lemma_leading_ws(s.skip(1), i - 1);
        assert(s.skip(1).skip(i - 1) =~= s.skip(i));
    } else {
        assert(s.skip(0) =~= s);
    }
}

proof fn lemma_trailing_ws(s: Seq<char>, j: int)
    requires
        0 <= j <= s.len(),
        forall|k: int| j <= k < s.len() ==> is_white_space(#[trigger] s[k]),
    ensures
        trailing_ws(s) == (s.len() - j) + trailing_ws(s.take(j)),
    decreases s.len() - j,
{
    if j < s.len() {
        lemma_trailing_ws(s.drop_last(), j);
        assert(s.drop_last().take(j) =~= s.take(j));
    } else {
        assert(s.take(j) =~= s);
    }
}

proof fn lemma_leading_ws_bounds(s: Seq<char>)
    ensures
        leading_ws(s) <= s.len(),
        forall|k: int| 0 <= k < leading_ws(s) ==> is_white_space(#[trigger] s[k]),
        leading_ws(s) < s.len() ==> !is_white_space(s[leading_ws(s) as int]),
    decreases s.len(),
{
    if s.len() > 0 && is_white_space(s[0]) {
        lemma_leading_ws_bounds(s.skip(1));
        assert forall|k: int| 0 <= k < leading_ws(s) implies is_white_space(#[trigger] s[k]) by {
            if k > 0 {
                assert(s[k] == s.skip(1)[k - 1]);
            }
        }
        if leading_ws(s) < s.len() {
            assert(s[leading_ws(s) as int] == s.skip(1)[leading_ws(s.skip(1)) as int]);
        }
    }
}

proof fn lemma_trailing_ws_bounds(s: Seq<char>)
    ensures
        trailing_ws(s) <= s.len(),
        forall|k: int| s.len() - trailing_ws(s) <= k < s.len() ==> is_white_space(#[trigger] s[k]),
        trailing_ws(s) < s.len() ==> !is_white_space(s[s.len() - trailing_ws(s) - 1]),
    decreases s.len(),
{
    if s.len() > 0 && is_white_space(s.last()) {
        let d = s.drop_last();
        lemma_trailing_ws_bounds(d);
        assert forall|k: int| s.len() - trailing_ws(s) <= k < s.len() implies is_white_space(#[trigger] s[k]) by {
            if k < s.len() - 1 {
                assert(s[k] == d[k]);
            }
        }
        if trailing_ws(s) < s.len() {
            assert(s[s.len() - trailing_ws(s) - 1] == d[d.len() - trailing_ws(d) - 1]);
        }
    }
}

/// Trimming takes off exactly the white space at both ends: the text is some white space,
/// what is left, and some white space, in that order, and what is left neither starts nor
/// ends with white space.
pub proof fn law_trim_strips_ends(s: Seq<char>)
    ensures
        trim(s).len() > 0 ==> !is_white_space(trim(s)[0]) && !is_white_space(trim(s).last()),
        exists|i: int, j: int| {
            &&& 0 <= i <= j <= s.len()
            &&& trim(s) == s.subrange(i, j)
            &&& forall|k: int| 0 <= k < i ==> is_white_space(#[trigger] s[k])
            &&& forall|k: int| j <= k < s.len() ==> is_white_space(#[trigger] s[k])
        },
{
    lemma_leading_ws_bounds(s);
    let i = leading_ws(s) as int;
    let t = s.skip(i);
    lemma_trailing_ws_bounds(t);
    let j = i + t.len() - trailing_ws(t);
    assert(trim(s) =~= s.subrange(i, j));
    assert forall|k: int| j <= k < s.len() implies is_white_space(#[trigger] s[k]) by {
        assert(s[k] == t[k - i]);
    }
    if trim(s).len() > 0 {
        assert(trim(s)[0] == s[i]);
        assert(trim(s).last() == t[t.len() - trailing_ws(t) - 1]);
    }
    assert({
        &&& 0 <= i <= j <= s.len()
        &&& trim(s) == s.subrange(i, j)
        &&& forall|k: int| 0 <= k < i ==> is_white_space(#[trigger] s[k])
        &&& forall|k: int| j <= k < s.len() ==> is_white_space(#[trigger] s[k])
    });
}

/// The characters of `s` without leading and trailing white space.
pub fn trim_chars(cs: &Vec<char>) -> (res: Vec<char>)
    ensures
        res@ == trim(cs@),
{
    let n = cs.len();
    let mut i: usize = 0;
    while i < n && is_white_space_exec(cs[i])
        invariant
            i <= n == cs@.len(),
            forall|k: int| 0 <= k < i ==> is_white_space(#[trigger] cs@[k]),
        decreases n - i,
    {
        i = i + 1;
    }
    proof {
        lemma_leading_ws(cs@, i as int);
        if i < n {
            assert(cs@.skip(i as int)[0] == cs@[i as int]);
        }
        assert(leading_ws(cs@) == i);
    }
    let ghost t = cs@.skip(i as int);
    let mut j: usize = n;
    while j > i && is_white_space_exec(cs[j - 1])
        invariant
            i <= j <= n == cs@.len(),
            t == cs@.skip(i as int),
            forall|k: int| j <= k < n ==> is_white_space(#[trigger] cs@[k]),
        decreases j - i,
    {
        j = j - 1;
    }
    proof {
        let jt = j - i;
        assert forall|k: int| jt <= k < t.len() implies is_white_space(#[trigger] t[k]) by {
            assert(t[k] == cs@[k + i]);
        }
        lemma_trailing_ws(t, jt as int);
        if jt > 0 {
            assert(t.take(jt as int).last() == cs@[j - 1]);
        }
        assert(trailing_ws(t.take(jt as int)) == 0);
    }
    let mut out: Vec<char> = Vec::new();
    let mut k = i;
    while k < j
        invariant
            i <= k <= j <= n == cs@.len(),
            out@ == cs@.subrange(i as int, k as int),
        decreases j - k,
    {
        out.push(cs[k]);
        k = k + 1;
        assert(out@ =~= cs@.subrange(i as int, k as int));
    }
    assert(out@ =~= trim(cs@));
    out
}

/// `a` comes before `b` in character order (as `str`'s `<` orders).
pub open spec fn text_lt(a: Seq<char>, b: Seq<char>) -> bool
    decreases a.len(),
{
    if a.len() == 0 {
        b.len() > 0
    } else if b.len() == 0 {
        false
    } else if a[0] != b[0] {
        a[0] < b[0]
    } else {
        text_lt(a.skip(1), b.skip(1))
    }
}

pub fn chars_lt(a: &Vec<char>, b: &Vec<char>) -> (res: bool)
    ensures
        res == text_lt(a@, b@),
{
    let mut i: usize = 0;
    assert(a@.skip(0) =~= a@);
    assert(b@.skip(0) =~= b@);
    while i < a.len() && i < b.len() && a[i] == b[i]
        invariant
            i <= a@.len(),
            i <= b@.len(),
            text_lt(a@, b@) == text_lt(a@.skip(i as int), b@.skip(i as int)),
        decreases a.len() - i,
    {
        assert(a@.skip(i as int).skip(1) =~= a@.skip(i + 1));
        assert(b@.skip(i as int).skip(1) =~= b@.skip(i + 1));
        assert(a@.skip(i as int)[0] == a@[i as int]);
        assert(b@.skip(i as int)[0] == b@[i as int]);
        i = i + 1;
    }
    if i < a.len() && i < b.len() {
        assert(a@.skip(i as int)[0] == a@[i as int]);
        assert(b@.skip(i as int)[0] == b@[i as int]);
        a[i] < b[i]
    } else {
        i == a.len() && i < b.len()
    }
}

} // verus!

verus! {

pub proof fn lemma_text_lt_irreflexive(a: Seq<char>)
    ensures
        !text_lt(a, a),
    decreases a.len(),
{
    if a.len() > 0 {
        lemma_text_lt_irreflexive(a.skip(1));
    }
}

pub proof fn lemma_text_lt_asymmetric(a: Seq<char>, b: Seq<char>)
    ensures
        text_lt(a, b) ==> !text_lt(b, a),
    decreases a.len(),
{
    if a.len() > 0 && b.len() > 0 && a[0] == b[0] {
        lemma_text_lt_asymmetric(a.skip(1), b.skip(1));
    }
}

pub proof fn lemma_text_lt_transitive(a: Seq<char>, b: Seq<char>, c: Seq<char>)
    requires
        text_lt(a, b),
        text_lt(b, c),
    ensures
        text_lt(a, c),
    decreases a.len(),
{
    if a.len() > 0 && b.len() > 0 && c.len() > 0 && a[0] == b[0] && b[0] == c[0] {
        lemma_text_lt_transitive(a.skip(1), b.skip(1), c.skip(1));
    }
}

pub proof fn lemma_text_lt_total(a: Seq<char>, b: Seq<char>)
    requires
        a != b,
    ensures
        text_lt(a, b) || text_lt(b, a),
    decreases a.len(),
{
    if a.len() > 0 && b.len() > 0 && a[0] == b[0] {
        if a.skip(1) == b.skip(1) {
            assert(a =~= seq![a[0]] + a.skip(1));
            assert(b =~= seq![b[0]] + b.skip(1));
        }
        lemma_text_lt_total(a.skip(1), b.skip(1));
    } else if a.len() == 0 && b.len() == 0 {
        assert(a =~= b);
    }
}

/// Texts strictly increasing in character order.
pub open spec fn texts_increasing(s: Seq<Seq<char>>) -> bool {
    forall|i: int, j: int| 0 <= i < j < s.len() ==> text_lt(#[trigger] s[i], #[trigger] s[j])
}

/// Sorts distinct texts into character order.
pub fn sort_texts(items: Vec<String>) -> (res: Vec<String>)
    requires
        items@.map_values(|s: String| s@).no_duplicates(),
    ensures
        texts_increasing(res@.map_values(|s: String| s@)),
        res@.len() == items@.len(),
        forall|i: int| 0 <= i < res@.len() ==> items@.map_values(|s: String| s@).contains(#[trigger] res@[i]@),
        forall|i: int| 0 <= i < items@.len() ==> res@.map_values(|s: String| s@).contains(#[trigger] items@[i]@),
{
    let ghost iv = items@.map_values(|s: String| s@);
    let mut out: Vec<String> = Vec::new();
    let n = items.len();
    let mut i: usize = 0;
    while i < n
        invariant
            n == items@.len(),
            iv == items@.map_values(|s: String| s@),
            iv.no_duplicates(),
            i <= n,
            out@.len() == i,
            texts_increasing(out@.map_values(|s: String| s@)),
            forall|k: int| 0 <= k < out@.len() ==> iv.take(i as int).contains(#[trigger] out@[k]@),
            forall|k: int| 0 <= k < i ==> out@.map_values(|s: String| s@).contains(#[trigger] iv[k]),
        decreases n - i,
    {
        let ghost ov = out@.map_values(|s: String| s@);
        let x = items[i].clone();
        assert(x@ == iv[i as int]);
        let xc = chars_of(x.as_str());
        let mut p: usize = 0;
        while p < out.len() && chars_lt(&chars_of(out[p].as_str()), &xc)
            invariant
                p <= out@.len(),
                ov == out@.map_values(|s: String| s@),
                xc@ == x@,
                forall|k: int| 0 <= k < p ==> text_lt(#[trigger] ov[k], x@),
            decreases out@.len() - p,
        {
            assert(ov[p as int] == out@[p as int]@);
            p = p + 1;
        }
        proof {
            if p < out@.len() {
                assert(ov[p as int] == out@[p as int]@);
                assert(!text_lt(ov[p as int], x@));
                assert(iv.take(i as int).contains(ov[p as int]));
                let j = choose|j: int| 0 <= j < i && iv.take(i as int)[j] == ov[p as int];
                assert(iv[j] != iv[i as int]);
                lemma_text_lt_total(ov[p as int], x@);
            }
        }
        let ghost xv = x@;
        out.insert(p, x);
        let ghost nv = out@.map_values(|s: String| s@);
        assert(nv =~= ov.insert(p as int, xv));
        assert forall|a: int, b: int| 0 <= a < b < nv.len() implies text_lt(#[trigger] nv[a], #[trigger] nv[b]) by {
            if b < p {
                assert(text_lt(ov[a], ov[b]));
            } else if b == p {
                assert(text_lt(ov[a], xv));
            } else if a < p {
                assert(text_lt(ov[a], xv));
                if p < b - 1 {
                    assert(text_lt(ov[p as int], ov[b - 1]));
                    lemma_text_lt_transitive(xv, ov[p as int], ov[b - 1]);
                }
                lemma_text_lt_transitive(ov[a], xv, ov[b - 1]);
            } else if a == p {
                if p < b - 1 {
                    assert(text_lt(ov[p as int], ov[b - 1]));
                    lemma_text_lt_transitive(xv, ov[p as int], ov[b - 1]);
                }
            } else {
                assert(text_lt(ov[a - 1], ov[b - 1]));
            }
        }
        assert forall|k: int| 0 <= k < out@.len() implies iv.take(i + 1).contains(#[trigger] out@[k]@) by {
            assert(out@[k]@ == nv[k]);
            if k < p {
                assert(iv.take(i as int).contains(ov[k]));
                let j = choose|j: int| 0 <= j < i && iv.take(i as int)[j] == ov[k];
                assert(iv.take(i + 1)[j] == ov[k]);
            } else if k == p {
                assert(iv.take(i + 1)[i as int] == xv);
            } else {
                assert(iv.take(i as int).contains(ov[k - 1]));
                let j = choose|j: int| 0 <= j < i && iv.take(i as int)[j] == ov[k - 1];
                assert(iv.take(i + 1)[j] == ov[k - 1]);
            }
        }
        assert forall|k: int| 0 <= k < i + 1 implies nv.contains(#[trigger] iv[k]) by {
            if k == i {
                assert(nv[p as int] == xv);
            } else {
                assert(ov.contains(iv[k]));
                let j = choose|j: int| 0 <= j < ov.len() && ov[j] == iv[k];
                if j < p {
                    assert(nv[j] == iv[k]);
                } else {
                    assert(nv[j + 1] == iv[k]);
                }
            }
        }
        i = i + 1;
    }
    assert(iv.take(n as int) =~= iv);
    assert forall|k: int| 0 <= k < items@.len() implies out@.map_values(|s: String| s@).contains(#[trigger] items@[k]@) by {
        assert(iv[k] == items@[k]@);
    }
    assert forall|k: int| 0 <= k < out@.len() implies iv.contains(#[trigger] out@[k]@) by {
        assert(iv.take(n as int).contains(out@[k]@));
    }
    out
}

} // verus!
