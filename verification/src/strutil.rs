//! Verified string primitives: equality, prefix/suffix tests, trimming,
//! splitting and substring replacement, each specified over `Seq<char>`.

use vstd::prelude::*;

verus! {

/// A sequence `s` starts with `p`.
pub open spec fn spec_starts_with(s: Seq<char>, p: Seq<char>) -> bool {
    s.len() >= p.len() && s.subrange(0, p.len() as int) == p
}

/// A sequence `s` ends with `p`.
pub open spec fn spec_ends_with(s: Seq<char>, p: Seq<char>) -> bool {
    s.len() >= p.len() && s.subrange(s.len() - p.len(), s.len() as int) == p
}

/// The ASCII whitespace characters dropped by trimming.
pub open spec fn spec_is_space(c: char) -> bool {
    c == ' ' || c == '\t' || c == '\n' || c == '\r' || c == '\u{b}' || c == '\u{c}'
}

/// `s` without its leading whitespace.
pub open spec fn spec_trim_start(s: Seq<char>) -> Seq<char>
    decreases s.len(),
{
    if s.len() > 0 && spec_is_space(s[0]) {
        spec_trim_start(s.drop_first())
    } else {
        s
    }
}

/// `s` without its trailing whitespace.
pub open spec fn spec_trim_end(s: Seq<char>) -> Seq<char>
    decreases s.len(),
{
    if s.len() > 0 && spec_is_space(s.last()) {
        spec_trim_end(s.drop_last())
    } else {
        s
    }
}

/// `s` without leading or trailing whitespace.
pub open spec fn spec_trim(s: Seq<char>) -> Seq<char> {
    spec_trim_end(spec_trim_start(s))
}

/// The parts of `s` between occurrences of `sep`, in order; there is
/// always at least one part, and an empty `s` yields one empty part.
pub open spec fn spec_split(s: Seq<char>, sep: char) -> Seq<Seq<char>>
    decreases s.len(),
{
    if s.len() == 0 {
        seq![Seq::<char>::empty()]
    } else if s[0] == sep {
        seq![Seq::<char>::empty()] + spec_split(s.drop_first(), sep)
    } else {
        let rest = spec_split(s.drop_first(), sep);
        seq![seq![s[0]] + rest[0]] + rest.subrange(1, rest.len() as int)
    }
}

pub proof fn lemma_split_len(s: Seq<char>, sep: char)
    ensures
        spec_split(s, sep).len() >= 1,
    decreases s.len(),
{
    if s.len() > 0 {
        lemma_split_len(s.drop_first(), sep);
    }
}

/// Splitting a string that begins with a separator-free prefix `t`
/// splits the remainder and extends its first part with `t`.
pub proof fn lemma_split_prepend(t: Seq<char>, u: Seq<char>, sep: char)
    requires
        forall|i: int| 0 <= i < t.len() ==> t[i] != sep,
    ensures
        spec_split(t + u, sep).len() >= 1,
        spec_split(t + u, sep) == seq![t + spec_split(u, sep)[0]]
            + spec_split(u, sep).subrange(1, spec_split(u, sep).len() as int),
    decreases t.len(),
{
    lemma_split_len(u, sep);
    lemma_split_len(t + u, sep);
    if t.len() == 0 {
        assert(t + u == u);
        assert(t + spec_split(u, sep)[0] == spec_split(u, sep)[0]);
        assert(seq![spec_split(u, sep)[0]]
            + spec_split(u, sep).subrange(1, spec_split(u, sep).len() as int)
            == spec_split(u, sep));
    } else {
        let s = t + u;
        assert(s.len() > 0 && s[0] == t[0] && t[0] != sep);
        assert(s.drop_first() == t.drop_first() + u);
        lemma_split_prepend(t.drop_first(), u, sep);
        let rest = spec_split(t.drop_first() + u, sep);
        let ru = spec_split(u, sep);
        assert(rest[0] == t.drop_first() + ru[0]);
        assert(seq![s[0]] + rest[0] == t + ru[0]);
        assert(rest.subrange(1, rest.len() as int) == ru.subrange(1, ru.len() as int));
        assert(spec_split(s, sep) == seq![seq![s[0]] + rest[0]]
            + rest.subrange(1, rest.len() as int));
    }
}

/// A separator-free string splits into exactly itself.
pub proof fn lemma_split_whole(t: Seq<char>, sep: char)
    requires
        forall|i: int| 0 <= i < t.len() ==> t[i] != sep,
    ensures
        spec_split(t, sep) == seq![t],
{
    lemma_split_prepend(t, Seq::<char>::empty(), sep);
    assert(t + Seq::<char>::empty() == t);
    assert(t + spec_split(Seq::<char>::empty(), sep)[0] == t);
    assert(spec_split(t, sep) == seq![t]);
}

/// A separator after a separator-free prefix `t` closes the part `t`.
pub proof fn lemma_split_at_sep(t: Seq<char>, u: Seq<char>, sep: char)
    requires
        forall|i: int| 0 <= i < t.len() ==> t[i] != sep,
    ensures
        spec_split(t + seq![sep] + u, sep) == seq![t] + spec_split(u, sep),
{
    lemma_split_len(u, sep);
    let v = seq![sep] + u;
    assert(v[0] == sep);
    assert(v.drop_first() == u);
    assert(spec_split(v, sep) == seq![Seq::<char>::empty()] + spec_split(u, sep));
    assert(t + seq![sep] + u == t + v);
    lemma_split_prepend(t, v, sep);
    let rv = spec_split(v, sep);
    assert(rv[0] == Seq::<char>::empty());
    assert(t + rv[0] == t);
    assert(rv.subrange(1, rv.len() as int) == spec_split(u, sep));
    assert(spec_split(t + v, sep) == seq![t] + spec_split(u, sep));
}

/// A separator-free suffix `t` after a separator closes the last part.
pub proof fn lemma_split_append_sep(u: Seq<char>, t: Seq<char>, sep: char)
    requires
        forall|i: int| 0 <= i < t.len() ==> t[i] != sep,
    ensures
        spec_split(u + seq![sep] + t, sep) == spec_split(u, sep).push(t),
    decreases u.len(),
{
    let s = u + seq![sep] + t;
    lemma_split_len(t, sep);
    if u.len() == 0 {
        assert(s =~= seq![sep] + t);
        assert(s[0] == sep);
        assert(s.drop_first() =~= t);
        lemma_split_whole(t, sep);
        assert(spec_split(s, sep) == seq![Seq::<char>::empty()] + seq![t]);
        assert(seq![Seq::<char>::empty()] + seq![t] =~= spec_split(u, sep).push(t));
    } else {
        assert(s[0] == u[0]);
        assert(s.drop_first() =~= u.drop_first() + seq![sep] + t);
        lemma_split_append_sep(u.drop_first(), t, sep);
        let su = spec_split(u.drop_first(), sep);
        lemma_split_len(u.drop_first(), sep);
        let rest = spec_split(s.drop_first(), sep);
        assert(rest == su.push(t));
        if u[0] == sep {
            assert(spec_split(s, sep) == seq![Seq::<char>::empty()] + rest);
            assert(spec_split(u, sep) == seq![Seq::<char>::empty()] + su);
            assert(seq![Seq::<char>::empty()] + su.push(t) =~= (seq![Seq::<char>::empty()]
                + su).push(t));
        } else {
            assert(rest[0] == su[0]);
            assert(rest.subrange(1, rest.len() as int) =~= su.subrange(
                1,
                su.len() as int,
            ).push(t));
            assert(spec_split(s, sep) == seq![seq![s[0]] + rest[0]] + rest.subrange(
                1,
                rest.len() as int,
            ));
            assert(spec_split(u, sep) == seq![seq![u[0]] + su[0]] + su.subrange(
                1,
                su.len() as int,
            ));
            assert(seq![seq![u[0]] + su[0]] + su.subrange(1, su.len() as int).push(t)
                =~= (seq![seq![u[0]] + su[0]] + su.subrange(1, su.len() as int)).push(t));
        }
    }
}

/// `s` with every occurrence of `pat` replaced by `to`, scanning left
/// to right without overlap; the identity when `pat` is empty.
pub open spec fn spec_replace(s: Seq<char>, pat: Seq<char>, to: Seq<char>) -> Seq<char>
    decreases s.len(),
{
    if pat.len() == 0 || s.len() < pat.len() {
        s
    } else if s.subrange(0, pat.len() as int) == pat {
        to + spec_replace(s.skip(pat.len() as int), pat, to)
    } else {
        seq![s[0]] + spec_replace(s.drop_first(), pat, to)
    }
}

proof fn lemma_trim_start_at(s: Seq<char>, i: int)
    requires
        0 <= i <= s.len(),
        forall|j: int| 0 <= j < i ==> spec_is_space(s[j]),
        i == s.len() || !spec_is_space(s[i]),
    ensures
        spec_trim_start(s) == s.skip(i),
    decreases i,
{
    if i == 0 {
        assert(s.skip(0) == s);
    } else {
        assert(spec_is_space(s[0]));
        lemma_trim_start_at(s.drop_first(), i - 1);
        assert(s.drop_first().skip(i - 1) == s.skip(i));
    }
}

proof fn lemma_trim_end_at(s: Seq<char>, i: int)
    requires
        0 <= i <= s.len(),
        forall|j: int| i <= j < s.len() ==> spec_is_space(s[j]),
        i == 0 || !spec_is_space(s[i - 1]),
    ensures
        spec_trim_end(s) == s.take(i),
    decreases s.len() - i,
{
    if i == s.len() {
        assert(s.take(i) == s);
    } else {
        assert(spec_is_space(s.last()));
        lemma_trim_end_at(s.drop_last(), i);
        assert(s.drop_last().take(i) == s.take(i));
    }
}

/// True exactly when the views of `a` and `b` are equal.
pub fn str_eq(a: &str, b: &str) -> (r: bool)
    ensures
        r == (a@ == b@),
{
    let alen = a.unicode_len();
    let blen = b.unicode_len();
    if alen != blen {
        return false;
    }
    let mut i: usize = 0;
    while i < alen
        invariant
            alen == a@.len(),
            alen == b@.len(),
            i <= alen,
            forall|j: int| 0 <= j < i ==> a@[j] == b@[j],
        decreases alen - i,
    {
        if a.get_char(i) != b.get_char(i) {
            return false;
        }
        i += 1;
    }
    proof {
        assert(a@ =~= b@);
    }
    true
}

/// True exactly when `s` starts with `p`.
pub fn str_starts_with(s: &str, p: &str) -> (r: bool)
    ensures
        r == spec_starts_with(s@, p@),
{
    let slen = s.unicode_len();
    let plen = p.unicode_len();
    if slen < plen {
        return false;
    }
    let sub = s.substring_char(0, plen);
    str_eq(sub, p)
}

/// True exactly when `s` ends with `p`.
pub fn str_ends_with(s: &str, p: &str) -> (r: bool)
    ensures
        r == spec_ends_with(s@, p@),
{
    let slen = s.unicode_len();
    let plen = p.unicode_len();
    if slen < plen {
        return false;
    }
    let sub = s.substring_char(slen - plen, slen);
    str_eq(sub, p)
}

/// The rest of `s` after the prefix `p`, when `s` starts with `p`.
pub fn strip_prefix<'a>(s: &'a str, p: &str) -> (r: Option<&'a str>)
    ensures
        r is Some <==> spec_starts_with(s@, p@),
        r matches Some(t) ==> t@ == s@.skip(p@.len() as int),
{
    if str_starts_with(s, p) {
        let rest = s.substring_char(p.unicode_len(), s.unicode_len());
        proof {
            assert(rest@ =~= s@.skip(p@.len() as int));
        }
        Some(rest)
    } else {
        None
    }
}

/// True exactly when the character `c` occurs in `s`.
pub fn str_contains_char(s: &str, c: char) -> (r: bool)
    ensures
        r == s@.contains(c),
{
    let len = s.unicode_len();
    let mut i: usize = 0;
    while i < len
        invariant
            len == s@.len(),
            i <= len,
            forall|j: int| 0 <= j < i ==> s@[j] != c,
        decreases len - i,
    {
        if s.get_char(i) == c {
            return true;
        }
        i += 1;
    }
    false
}

fn is_space_char(c: char) -> (r: bool)
    ensures
        r == spec_is_space(c),
{
    c == ' ' || c == '\t' || c == '\n' || c == '\r' || c == '\u{b}' || c == '\u{c}'
}

/// `s` without leading or trailing ASCII whitespace.
pub fn trim(s: &str) -> (r: &str)
    ensures
        r@ == spec_trim(s@),
{
    let len = s.unicode_len();
    let mut a: usize = 0;
    while a < len
        invariant
            len == s@.len(),
            a <= len,
            forall|j: int| 0 <= j < a ==> spec_is_space(s@[j]),
        ensures
            a <= len,
            forall|j: int| 0 <= j < a ==> spec_is_space(s@[j]),
            a == len || !spec_is_space(s@[a as int]),
        decreases len - a,
    {
        if !is_space_char(s.get_char(a)) {
            break;
        }
        a += 1;
    }
    let mut b: usize = len;
    while b > a
        invariant
            len == s@.len(),
            a <= b <= len,
            forall|j: int| b <= j < len ==> spec_is_space(s@[j]),
        ensures
            a <= b <= len,
            forall|j: int| b <= j < len ==> spec_is_space(s@[j]),
            b == a || !spec_is_space(s@[b - 1]),
        decreases b,
    {
        if !is_space_char(s.get_char(b - 1)) {
            break;
        }
        b -= 1;
    }
    let r = s.substring_char(a, b);
    proof {
        lemma_trim_start_at(s@, a as int);
        let m = s@.skip(a as int);
        assert(forall|j: int| (b - a) <= j < m.len() ==> spec_is_space(#[trigger] m[j]));
        if b > a {
            assert(!spec_is_space(m[b - a - 1]));
        }
        lemma_trim_end_at(m, b - a);
        assert(r@ =~= m.take(b - a));
    }
    r
}

/// The parts of `s` between occurrences of `sep`, as `spec_split` lists them.
pub fn split_char(s: &str, sep: char) -> (parts: Vec<String>)
    ensures
        parts.deep_view() == spec_split(s@, sep),
{
    let len = s.unicode_len();
    let mut parts: Vec<String> = Vec::new();
    let mut cur: String = String::new();
    let mut i: usize = 0;
    proof {
        assert(cur@ + s@.skip(0) =~= s@);
        assert(parts.deep_view() =~= Seq::<Seq<char>>::empty());
    }
    while i < len
        invariant
            len == s@.len(),
            i <= len,
            forall|j: int| 0 <= j < cur@.len() ==> cur@[j] != sep,
            spec_split(s@, sep) == parts.deep_view() + spec_split(cur@ + s@.skip(i as int), sep),
        decreases len - i,
    {
        let c = s.get_char(i);
        if c == sep {
            proof {
                assert(cur@ + s@.skip(i as int) =~= cur@ + seq![sep] + s@.skip(i + 1));
                lemma_split_at_sep(cur@, s@.skip(i + 1), sep);
            }
            let ghost old_parts = parts.deep_view();
            let ghost old_cur = cur@;
            parts.push(cur);
            cur = String::new();
            proof {
                assert(parts.deep_view() =~= old_parts.push(old_cur));
                assert(cur@ + s@.skip(i + 1) =~= s@.skip(i + 1));
                assert(parts.deep_view() + spec_split(s@.skip(i + 1), sep)
                    =~= old_parts + (seq![old_cur] + spec_split(s@.skip(i + 1), sep)));
            }
        } else {
            let ghost old_cur = cur@;
            let piece = s.substring_char(i, i + 1);
            cur.append(piece);
            proof {
                assert(piece@ =~= seq![s@[i as int]]);
                assert(cur@ + s@.skip(i + 1) =~= old_cur + s@.skip(i as int));
            }
        }
        i += 1;
    }
    proof {
        assert(cur@ + s@.skip(len as int) =~= cur@);
        lemma_split_whole(cur@, sep);
    }
    let ghost old_parts = parts.deep_view();
    let ghost old_cur = cur@;
    parts.push(cur);
    proof {
        assert(parts.deep_view() =~= old_parts.push(old_cur));
        assert(old_parts + seq![old_cur] =~= old_parts.push(old_cur));
    }
    parts
}

/// Turns a string slice into an owned string with the same view.
pub fn to_string(s: &str) -> (r: String)
    ensures
        r@ == s@,
{
    String::from_str(s)
}

/// `s` with every occurrence of `pat` replaced by `to`, as `spec_replace`.
pub fn replace_all(s: &str, pat: &str, to: &str) -> (r: String)
    requires
        pat@.len() >= 1,
    ensures
        r@ == spec_replace(s@, pat@, to@),
{
    let slen = s.unicode_len();
    let plen = pat.unicode_len();
    let mut out: String = String::new();
    if slen < plen {
        out.append(s);
        return out;
    }
    let bound = slen - plen;
    let mut i: usize = 0;
    proof {
        assert(s@.skip(0) =~= s@);
        assert(out@ + spec_replace(s@, pat@, to@) =~= spec_replace(s@, pat@, to@));
    }
    while i <= bound
        invariant
            slen == s@.len(),
            plen == pat@.len(),
            plen >= 1,
            slen >= plen,
            bound == slen - plen,
            i <= slen,
            spec_replace(s@, pat@, to@) == out@ + spec_replace(s@.skip(i as int), pat@, to@),
        decreases slen - i,
    {
        let sub = s.substring_char(i, i + plen);
        proof {
            let m = s@.skip(i as int);
            assert(m.len() >= pat@.len());
            assert(m.subrange(0, pat@.len() as int) =~= s@.subrange(i as int, i + plen));
            assert(sub@ =~= s@.subrange(i as int, i + plen));
        }
        if str_eq(sub, pat) {
            out.append(to);
            proof {
                assert(s@.skip(i as int).skip(plen as int) =~= s@.skip(i + plen));
            }
            i += plen;
        } else {
            let piece = s.substring_char(i, i + 1);
            out.append(piece);
            proof {
                let m = s@.skip(i as int);
                assert(seq![m[0]] =~= s@.subrange(i as int, i + 1));
                assert(m.drop_first() =~= s@.skip(i + 1));
            }
            i += 1;
        }
    }
    let tail = s.substring_char(i, slen);
    out.append(tail);
    proof {
        let m = s@.skip(i as int);
        assert(m.len() < pat@.len());
        assert(tail@ =~= m);
    }
    out
}

} // verus!
