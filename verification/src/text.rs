//! Character-level text operations with exact specifications over `Seq<char>`.
//!
//! Every executable helper here is stated against a spec function that says
//! what the text is, so that callers can reason about strings as sequences.

use vstd::prelude::*;

verus! {

// ---------------------------------------------------------------------------
// Conversions between `str`, `String` and character vectors
// ---------------------------------------------------------------------------

/// Appends one character to a string (`String::push`).
#[verifier::external_body]
pub(crate) fn push_char(s: &mut String, c: char)
    ensures
        final(s)@ == old(s)@.push(c),
{
    s.push(c);
}

/// The characters of `s`, in order.
pub fn chars_of(s: &str) -> (r: Vec<char>)
    ensures
        r@ == s@,
{
    let mut r: Vec<char> = Vec::new();
    for c in it: s.chars()
        invariant
            r@ == it.seq().take(it.index() as int),
            it.seq() == s@,
    {
        r.push(c);
    }
    r
}

/// The string made of the characters `cs[from..to]`.
pub fn string_of_range(cs: &Vec<char>, from: usize, to: usize) -> (r: String)
    requires
        from <= to <= cs.len(),
    ensures
        r@ == cs@.subrange(from as int, to as int),
{
    let mut r = String::new();
    let mut i: usize = from;
    while i < to
        invariant
            from <= i <= to <= cs.len(),
            r@ == cs@.subrange(from as int, i as int),
        decreases to - i,
    {
        push_char(&mut r, cs[i]);
        assert(cs@.subrange(from as int, i + 1) == cs@.subrange(from as int, i as int).push(
            cs@[i as int],
        ));
        i += 1;
    }
    r
}

/// The string made of all the characters of `cs`.
pub fn string_of(cs: &Vec<char>) -> (r: String)
    ensures
        r@ == cs@,
{
    let r = string_of_range(cs, 0, cs.len());
    assert(cs@.subrange(0, cs.len() as int) == cs@);
    r
}

/// A copy of `s` as an owned string.
pub fn owned(s: &str) -> (r: String)
    ensures
        r@ == s@,
{
    let cs = chars_of(s);
    string_of(&cs)
}

/// The concatenation of `a` and `b`.
pub fn concat2(a: &str, b: &str) -> (r: String)
    ensures
        r@ == a@ + b@,
{
    let mut r = owned(a);
    for c in it: b.chars()
        invariant
            r@ == a@ + it.seq().take(it.index() as int),
            it.seq() == b@,
    {
        push_char(&mut r, c);
        assert(a@ + it.seq().take(it.index() + 1) == (a@ + it.seq().take(it.index() as int)).push(
            c,
        ));
    }
    assert(b@.take(b@.len() as int) == b@);
    r
}

/// The concatenation of three strings.
pub fn concat3(a: &str, b: &str, c: &str) -> (r: String)
    ensures
        r@ == a@ + b@ + c@,
{
    let ab = concat2(a, b);
    concat2(ab.as_str(), c)
}

/// The concatenation of four strings.
pub fn concat4(a: &str, b: &str, c: &str, d: &str) -> (r: String)
    ensures
        r@ == a@ + b@ + c@ + d@,
{
    let abc = concat3(a, b, c);
    concat2(abc.as_str(), d)
}

/// The concatenation of five strings.
pub fn concat5(a: &str, b: &str, c: &str, d: &str, e: &str) -> (r: String)
    ensures
        r@ == a@ + b@ + c@ + d@ + e@,
{
    let abcd = concat4(a, b, c, d);
    concat2(abcd.as_str(), e)
}

/// Whether two strings hold the same characters.
pub fn str_eq(a: &str, b: &str) -> (r: bool)
    ensures
        r == (a@ == b@),
{
    let x = chars_of(a);
    let y = chars_of(b);
    if x.len() != y.len() {
        return false;
    }
    let mut i: usize = 0;
    while i < x.len()
        invariant
            x@ == a@,
            y@ == b@,
            x.len() == y.len(),
            i <= x.len(),
            forall|j: int| 0 <= j < i ==> x@[j] == y@[j],
        decreases x.len() - i,
    {
        if x[i] != y[i] {
            return false;
        }
        i += 1;
    }
    assert(x@ =~= y@);
    true
}

// ---------------------------------------------------------------------------
// Prefixes, suffixes and substrings
// ---------------------------------------------------------------------------

/// `p` is a prefix of `s`.
pub open spec fn has_prefix(s: Seq<char>, p: Seq<char>) -> bool {
    p.len() <= s.len() && s.subrange(0, p.len() as int) == p
}

/// `p` is a suffix of `s`.
pub open spec fn has_suffix(s: Seq<char>, p: Seq<char>) -> bool {
    p.len() <= s.len() && s.subrange(s.len() - p.len(), s.len() as int) == p
}

/// `p` occurs in `s` starting at position `i`.
pub open spec fn occurs_at(s: Seq<char>, p: Seq<char>, i: int) -> bool {
    0 <= i && i + p.len() <= s.len() && s.subrange(i, i + p.len()) == p
}

/// `p` occurs somewhere in `s`.
pub open spec fn contains_seq(s: Seq<char>, p: Seq<char>) -> bool {
    exists|i: int| occurs_at(s, p, i)
}

/// Whether `p` occurs in `v` at position `i` (exec form of `occurs_at`).
pub fn occurs_at_exec(v: &Vec<char>, p: &Vec<char>, i: usize) -> (r: bool)
    ensures
        r == occurs_at(v@, p@, i as int),
{
    if i > v.len() || p.len() > v.len() - i {
        return false;
    }
    let mut j: usize = 0;
    while j < p.len()
        invariant
            i + p.len() <= v.len(),
            j <= p.len(),
            forall|k: int| 0 <= k < j ==> v@[i + k] == p@[k],
        decreases p.len() - j,
    {
        if v[i + j] != p[j] {
            assert(v@.subrange(i as int, i + p.len())[j as int] != p@[j as int]);
            return false;
        }
        j += 1;
    }
    assert(v@.subrange(i as int, i + p.len()) =~= p@);
    true
}

/// Whether `s` starts with `p` (`str::starts_with`).
pub fn starts_with(s: &str, p: &str) -> (r: bool)
    ensures
        r == has_prefix(s@, p@),
{
    let v = chars_of(s);
    let q = chars_of(p);
    occurs_at_exec(&v, &q, 0)
}

/// Whether `s` ends with `p` (`str::ends_with`).
pub fn ends_with(s: &str, p: &str) -> (r: bool)
    ensures
        r == has_suffix(s@, p@),
{
    let v = chars_of(s);
    let q = chars_of(p);
    if q.len() > v.len() {
        return false;
    }
    occurs_at_exec(&v, &q, v.len() - q.len())
}

/// Whether `p` occurs in `s` (`str::contains`).
pub fn contains(s: &str, p: &str) -> (r: bool)
    ensures
        r == contains_seq(s@, p@),
{
    let v = chars_of(s);
    let q = chars_of(p);
    if q.len() > v.len() {
        assert forall|i: int| !occurs_at(s@, p@, i) by {}
        return false;
    }
    let n = v.len() - q.len();
    let mut i: usize = 0;
    loop
        invariant
            v@ == s@,
            q@ == p@,
            q.len() <= v.len(),
            n == v.len() - q.len(),
            i <= n,
            forall|k: int| 0 <= k < i ==> !occurs_at(s@, p@, k),
        ensures
            forall|k: int| 0 <= k <= n ==> !occurs_at(s@, p@, k),
        decreases n - i,
    {
        if occurs_at_exec(&v, &q, i) {
            return true;
        }
        if i == n {
            break;
        }
        i += 1;
    }
    assert forall|k: int| !occurs_at(s@, p@, k) by {}
    false
}

/// `s` with the prefix `p` removed, when it is there (`str::strip_prefix`).
pub fn strip_prefix(s: &str, p: &str) -> (r: Option<String>)
    ensures
        r is Some <==> has_prefix(s@, p@),
        r matches Some(rest) ==> rest@ == s@.subrange(p@.len() as int, s@.len() as int),
{
    let v = chars_of(s);
    let q = chars_of(p);
    if occurs_at_exec(&v, &q, 0) {
        Some(string_of_range(&v, q.len(), v.len()))
    } else {
        None
    }
}

// ---------------------------------------------------------------------------
// Whitespace and trimming
// ---------------------------------------------------------------------------

/// The characters with the Unicode `White_Space` property (`char::is_whitespace`).
pub open spec fn is_ws(c: char) -> bool {
    let u = c as u32;
    (0x9 <= u <= 0xd) || u == 0x20 || u == 0x85 || u == 0xa0 || u == 0x1680 || (0x2000 <= u
        <= 0x200a) || u == 0x2028 || u == 0x2029 || u == 0x202f || u == 0x205f || u == 0x3000
}

/// Whether `c` is whitespace (`char::is_whitespace`).
pub fn is_whitespace(c: char) -> (r: bool)
    ensures
        r == is_ws(c),
{
    let u = c as u32;
    (0x9 <= u && u <= 0xd) || u == 0x20 || u == 0x85 || u == 0xa0 || u == 0x1680 || (0x2000 <= u
        && u <= 0x200a) || u == 0x2028 || u == 0x2029 || u == 0x202f || u == 0x205f || u == 0x3000
}

/// `s` without its leading characters equal to `c`.
pub open spec fn trim_start_char(s: Seq<char>, c: char) -> Seq<char>
    decreases s.len(),
{
    if s.len() > 0 && s[0] == c {
        trim_start_char(s.drop_first(), c)
    } else {
        s
    }
}

/// `s` without its trailing characters equal to `c`.
pub open spec fn trim_end_char(s: Seq<char>, c: char) -> Seq<char>
    decreases s.len(),
{
    if s.len() > 0 && s.last() == c {
        trim_end_char(s.drop_last(), c)
    } else {
        s
    }
}

/// `s` without its leading whitespace.
pub open spec fn trim_start_ws(s: Seq<char>) -> Seq<char>
    decreases s.len(),
{
    if s.len() > 0 && is_ws(s[0]) {
        trim_start_ws(s.drop_first())
    } else {
        s
    }
}

/// `s` without its trailing whitespace.
pub open spec fn trim_end_ws(s: Seq<char>) -> Seq<char>
    decreases s.len(),
{
    if s.len() > 0 && is_ws(s.last()) {
        trim_end_ws(s.drop_last())
    } else {
        s
    }
}

/// `s` without leading and trailing whitespace (`str::trim`).
pub open spec fn trim_seq(s: Seq<char>) -> Seq<char> {
    trim_end_ws(trim_start_ws(s))
}

/// The index of the first character of `v` at or after `from` that is not whitespace.
fn skip_ws_forward(v: &Vec<char>, from: usize) -> (i: usize)
    requires
        from <= v.len(),
    ensures
        from <= i <= v.len(),
        trim_start_ws(v@.subrange(from as int, v@.len() as int)) == v@.subrange(
            i as int,
            v@.len() as int,
        ),
{
    let mut i = from;
    while i < v.len() && is_whitespace(v[i])
        invariant
            from <= i <= v.len(),
            trim_start_ws(v@.subrange(from as int, v@.len() as int)) == trim_start_ws(
                v@.subrange(i as int, v@.len() as int),
            ),
        decreases v.len() - i,
    {
        assert(v@.subrange(i as int, v@.len() as int).drop_first() == v@.subrange(
            i + 1,
            v@.len() as int,
        ));
        i += 1;
    }
    i
}

/// The end of `v[from..to]` once its trailing whitespace is removed.
fn skip_ws_backward(v: &Vec<char>, from: usize, to: usize) -> (j: usize)
    requires
        from <= to <= v.len(),
    ensures
        from <= j <= to,
        trim_end_ws(v@.subrange(from as int, to as int)) == v@.subrange(from as int, j as int),
{
    let mut j = to;
    while j > from && is_whitespace(v[j - 1])
        invariant
            from <= j <= to <= v.len(),
            trim_end_ws(v@.subrange(from as int, to as int)) == trim_end_ws(
                v@.subrange(from as int, j as int),
            ),
        decreases j,
    {
        assert(v@.subrange(from as int, j as int).drop_last() == v@.subrange(
            from as int,
            j - 1,
        ));
        j -= 1;
    }
    j
}

/// `s` without leading and trailing whitespace (`str::trim`).
pub fn trim(s: &str) -> (r: String)
    ensures
        r@ == trim_seq(s@),
{
    let v = chars_of(s);
    let i = skip_ws_forward(&v, 0);
    let j = skip_ws_backward(&v, i, v.len());
    assert(v@.subrange(0, v@.len() as int) == v@);
    string_of_range(&v, i, j)
}

/// `s` without trailing whitespace (`str::trim_end`).
pub fn trim_end(s: &str) -> (r: String)
    ensures
        r@ == trim_end_ws(s@),
{
    let v = chars_of(s);
    let j = skip_ws_backward(&v, 0, v.len());
    assert(v@.subrange(0, v@.len() as int) == v@);
    string_of_range(&v, 0, j)
}

/// Whether `s` is empty once trimmed (`s.trim().is_empty()`).
pub fn is_blank(s: &str) -> (r: bool)
    ensures
        r == (trim_seq(s@).len() == 0),
{
    let t = trim(s);
    t.as_str().is_empty()
}

/// `s` without trailing occurrences of `c` (`str::trim_end_matches` with a character).
pub fn trim_end_matches_char(s: &str, c: char) -> (r: String)
    ensures
        r@ == trim_end_char(s@, c),
{
    let v = chars_of(s);
    let mut j = v.len();
    assert(v@.subrange(0, v@.len() as int) == v@);
    while j > 0 && v[j - 1] == c
        invariant
            j <= v.len(),
            v@ == s@,
            trim_end_char(s@, c) == trim_end_char(v@.subrange(0, j as int), c),
        decreases j,
    {
        assert(v@.subrange(0, j as int).drop_last() == v@.subrange(0, j - 1));
        j -= 1;
    }
    assert(v@.subrange(0, v@.len() as int) == v@);
    string_of_range(&v, 0, j)
}

/// `s` without leading occurrences of `c` (`str::trim_start_matches` with a character).
pub fn trim_start_matches_char(s: &str, c: char) -> (r: String)
    ensures
        r@ == trim_start_char(s@, c),
{
    let v = chars_of(s);
    let mut i: usize = 0;
    assert(v@.subrange(0, v@.len() as int) == v@);
    while i < v.len() && v[i] == c
        invariant
            i <= v.len(),
            v@ == s@,
            trim_start_char(s@, c) == trim_start_char(v@.subrange(i as int, v@.len() as int), c),
        decreases v.len() - i,
    {
        assert(v@.subrange(i as int, v@.len() as int).drop_first() == v@.subrange(
            i + 1,
            v@.len() as int,
        ));
        i += 1;
    }
    string_of_range(&v, i, v.len())
}

// ---------------------------------------------------------------------------
// Case mapping
// ---------------------------------------------------------------------------

/// The ASCII lowercase form of a character.
pub open spec fn ascii_lower(c: char) -> char {
    if 'A' <= c <= 'Z' {
        ((c as u32) + 32) as char
    } else {
        c
    }
}

/// The ASCII lowercase form of every character of `s`.
pub open spec fn ascii_lower_seq(s: Seq<char>) -> Seq<char> {
    s.map_values(|c: char| ascii_lower(c))
}

/// Whether every character of `s` is ASCII.
pub open spec fn all_ascii(s: Seq<char>) -> bool {
    forall|i: int| 0 <= i < s.len() ==> (s[i] as u32) < 128
}

/// The lowercase form of a character in ASCII (`char::to_ascii_lowercase`).
pub fn lower_ascii_char(c: char) -> (r: char)
    ensures
        r == ascii_lower(c),
{
    if 'A' <= c && c <= 'Z' {
        let u: u8 = (c as u8) + 32;
        u as char
    } else {
        c
    }
}

/// `s` with ASCII letters lowered (`str::to_ascii_lowercase`).
pub fn to_ascii_lowercase(s: &str) -> (r: String)
    ensures
        r@ == ascii_lower_seq(s@),
{
    let mut r = String::new();
    for c in it: s.chars()
        invariant
            it.seq() == s@,
            r@ == ascii_lower_seq(s@.take(it.index() as int)),
    {
        push_char(&mut r, lower_ascii_char(c));
        assert(ascii_lower_seq(s@.take(it.index() + 1)) == ascii_lower_seq(
            s@.take(it.index() as int),
        ).push(ascii_lower(c)));
    }
    assert(s@.take(s@.len() as int) == s@);
    r
}

/// What `str::to_lowercase` returns: the Unicode `Lowercase` mapping of every character.
pub uninterp spec fn unicode_lowercase(s: Seq<char>) -> Seq<char>;

/// The lowercase form of `s`: on ASCII text the Unicode lowercase mapping lowers each
/// letter `A`-`Z` and keeps every other character, so it is stated there; elsewhere it
/// is the named Unicode mapping.
pub open spec fn lowercase_seq(s: Seq<char>) -> Seq<char> {
    if all_ascii(s) {
        ascii_lower_seq(s)
    } else {
        unicode_lowercase(s)
    }
}

/// `str::to_lowercase`: the Unicode lowercase form of `s`. The contract names the result
/// by `unicode_lowercase` and states it for text that is all ASCII.
#[verifier::external_body]
pub(crate) fn to_lowercase(s: &str) -> (r: String)
    ensures
        all_ascii(s@) ==> r@ == ascii_lower_seq(s@),
        !all_ascii(s@) ==> r@ == unicode_lowercase(s@),
{
    s.to_lowercase()
}

// ---------------------------------------------------------------------------
// Replacement and splitting
// ---------------------------------------------------------------------------

/// `s` with every non-overlapping occurrence of `f`, found left to right, replaced by `t`
/// (`str::replace` for a non-empty pattern).
pub open spec fn replace_seq(s: Seq<char>, f: Seq<char>, t: Seq<char>) -> Seq<char>
    decreases s.len(),
{
    if f.len() == 0 || s.len() == 0 {
        s
    } else if has_prefix(s, f) {
        t + replace_seq(s.subrange(f.len() as int, s.len() as int), f, t)
    } else {
        seq![s[0]] + replace_seq(s.drop_first(), f, t)
    }
}

/// Text that does not hold the first character of the pattern is copied unchanged by a
/// replacement: replacing in `a + b` gives `a` followed by the replacement in `b`.
pub proof fn lemma_replace_seq_skips_text(a: Seq<char>, b: Seq<char>, f: Seq<char>, t: Seq<char>)
    requires
        f.len() > 0,
        !a.contains(f[0]),
    ensures
        replace_seq(a + b, f, t) == a + replace_seq(b, f, t),
    decreases a.len(),
{
    if a.len() == 0 {
        assert(a + b =~= b);
        assert(a + replace_seq(b, f, t) =~= replace_seq(b, f, t));
    } else {
        let s = a + b;
        assert(s[0] == a[0]);
        if has_prefix(s, f) {
            assert(s.subrange(0, f.len() as int)[0] == s[0]);
            assert(a.contains(f[0]));
        }
        let rest = a.drop_first();
        assert(!rest.contains(f[0])) by {
            if rest.contains(f[0]) {
                let i = choose|i: int| 0 <= i < rest.len() && rest[i] == f[0];
                assert(a[i + 1] == f[0]);
            }
        }
        assert(s.drop_first() =~= rest + b);
        lemma_replace_seq_skips_text(rest, b, f, t);
        assert(seq![a[0]] + (rest + replace_seq(b, f, t)) =~= a + replace_seq(b, f, t));
    }
}

/// Replacing in text that starts with the pattern puts the replacement first.
pub proof fn lemma_replace_seq_at_pattern(b: Seq<char>, f: Seq<char>, t: Seq<char>)
    requires
        f.len() > 0,
    ensures
        replace_seq(f + b, f, t) == t + replace_seq(b, f, t),
{
    let s = f + b;
    assert(s.subrange(0, f.len() as int) =~= f);
    assert(s.subrange(f.len() as int, s.len() as int) =~= b);
}

/// Replacing a pattern that differs from `g` at position `k` (within both) leaves the
/// first character of `g + b` in place and goes on after it.
pub proof fn lemma_replace_seq_mismatch(g: Seq<char>, b: Seq<char>, f: Seq<char>, t: Seq<char>, k: int)
    requires
        0 <= k < f.len(),
        k < g.len(),
        f[k] != g[k],
    ensures
        replace_seq(g + b, f, t) == seq![g[0]] + replace_seq(g.drop_first() + b, f, t),
{
    let s = g + b;
    if has_prefix(s, f) {
        assert(s.subrange(0, f.len() as int)[k] == s[k]);
    }
    assert(s.drop_first() =~= g.drop_first() + b);
}

/// `s` with every occurrence of `f` replaced by `t` (`str::replace`); the library only
/// replaces non-empty patterns.
pub(crate) fn replace(s: &str, f: &str, t: &str) -> (r: String)
    requires
        f@.len() > 0,
    ensures
        r@ == replace_seq(s@, f@, t@),
{
    let v = chars_of(s);
    let p = chars_of(f);
    let q = chars_of(t);
    let mut out: Vec<char> = Vec::new();
    let mut i: usize = 0;
    assert(v@.subrange(0, v@.len() as int) == v@);
    while i < v.len()
        invariant
            v@ == s@,
            p@ == f@,
            q@ == t@,
            p.len() > 0,
            i <= v.len(),
            out@ + replace_seq(v@.subrange(i as int, v@.len() as int), f@, t@) == replace_seq(
                s@,
                f@,
                t@,
            ),
        decreases v.len() - i,
    {
        let ghost rest = v@.subrange(i as int, v@.len() as int);
        if occurs_at_exec(&v, &p, i) {
            assert(rest.subrange(0, p@.len() as int) == v@.subrange(i as int, i + p@.len()));
            assert(rest.subrange(p@.len() as int, rest.len() as int) == v@.subrange(
                i + p@.len(),
                v@.len() as int,
            ));
            let ghost before = out@;
            let mut k: usize = 0;
            while k < q.len()
                invariant
                    k <= q.len(),
                    out@ == before + q@.take(k as int),
                decreases q.len() - k,
            {
                out.push(q[k]);
                assert(q@.take(k + 1) == q@.take(k as int).push(q@[k as int]));
                k += 1;
            }
            assert(q@.take(q.len() as int) == q@);
            assert(before + (q@ + replace_seq(
                v@.subrange(i + p@.len(), v@.len() as int),
                f@,
                t@,
            )) == (before + q@) + replace_seq(v@.subrange(i + p@.len(), v@.len() as int), f@, t@));
            i = i + p.len();
        } else {
            assert(!has_prefix(rest, f@)) by {
                if has_prefix(rest, f@) {
                    assert(v@.subrange(i as int, i + p@.len()) == rest.subrange(
                        0,
                        p@.len() as int,
                    ));
                }
            }
            assert(rest.drop_first() == v@.subrange(i + 1, v@.len() as int));
            let ghost before = out@;
            out.push(v[i]);
            assert(before + (seq![v@[i as int]] + replace_seq(
                v@.subrange(i + 1, v@.len() as int),
                f@,
                t@,
            )) == before.push(v@[i as int]) + replace_seq(
                v@.subrange(i + 1, v@.len() as int),
                f@,
                t@,
            ));
            i = i + 1;
        }
    }
    assert(out@ + replace_seq(v@.subrange(i as int, v@.len() as int), f@, t@) == out@);
    string_of(&out)
}

/// The pieces of `s` between occurrences of the separator `c` (`str::split` with a
/// character); there is always at least one piece.
pub open spec fn split_seq(s: Seq<char>, c: char) -> Seq<Seq<char>>
    decreases s.len(),
{
    if s.len() == 0 {
        seq![Seq::<char>::empty()]
    } else {
        let rest = split_seq(s.drop_first(), c);
        if s[0] == c {
            seq![Seq::<char>::empty()] + rest
        } else {
            rest.update(0, seq![s[0]] + rest[0])
        }
    }
}

/// The pieces of `s` between occurrences of `c` (`str::split(c)` collected).
pub fn split_char(s: &str, c: char) -> (r: Vec<String>)
    ensures
        r@.len() == split_seq(s@, c).len(),
        forall|i: int| 0 <= i < r@.len() ==> #[trigger] r@[i]@ == split_seq(s@, c)[i],
{
    let v = chars_of(s);
    assert(v@.subrange(0, v@.len() as int) == v@);
    split_from(&v, 0, c)
}

/// Lemma: `split_seq` always yields at least one piece.
pub proof fn lemma_split_nonempty(s: Seq<char>, c: char)
    ensures
        split_seq(s, c).len() >= 1,
    decreases s.len(),
{
    if s.len() > 0 {
        lemma_split_nonempty(s.drop_first(), c);
    }
}

/// Lemma: a separator between two texts splits them apart: the pieces of `x`, then
/// those of `y`.
pub(crate) proof fn lemma_split_concat(x: Seq<char>, y: Seq<char>, c: char)
    ensures
        split_seq(x + seq![c] + y, c) == split_seq(x, c) + split_seq(y, c),
    decreases x.len(),
{
    let whole = x + seq![c] + y;
    if x.len() == 0 {
        assert(whole.drop_first() =~= y);
        assert(whole[0] == c);
    } else {
        lemma_split_concat(x.drop_first(), y, c);
        lemma_split_nonempty(x.drop_first(), c);
        assert(whole.drop_first() =~= x.drop_first() + seq![c] + y);
        assert(whole[0] == x[0]);
        let rest = split_seq(x.drop_first(), c);
        if x[0] == c {
            assert(split_seq(whole, c) =~= split_seq(x, c) + split_seq(y, c));
        } else {
            assert((rest + split_seq(y, c)).update(0, seq![x[0]] + rest[0]) =~= rest.update(
                0,
                seq![x[0]] + rest[0],
            ) + split_seq(y, c));
        }
    }
}

/// Lemma: a text without the separator is a single piece.
pub(crate) proof fn lemma_split_single(s: Seq<char>, c: char)
    requires
        !s.contains(c),
    ensures
        split_seq(s, c) == seq![s],
{
    assert forall|k: int| 0 <= k < s.len() implies s[k] != c by {
        if s[k] == c {
            assert(s.contains(c));
        }
    }
    lemma_split_no_sep(s, 0, c);
    assert(s.subrange(0, s.len() as int) =~= s);
}

/// Lemma: texts without the separator, joined with it, split back into themselves.
pub(crate) proof fn lemma_split_joined(ws: Seq<Seq<char>>, c: char)
    requires
        ws.len() > 0,
        forall|i: int| 0 <= i < ws.len() ==> !(#[trigger] ws[i]).contains(c),
    ensures
        split_seq(join_with(ws, seq![c]), c) == ws,
    decreases ws.len(),
{
    if ws.len() == 1 {
        lemma_split_single(ws[0], c);
        assert(seq![ws[0]] =~= ws);
    } else {
        let init = ws.drop_last();
        assert forall|i: int| 0 <= i < init.len() implies !(#[trigger] init[i]).contains(c) by {
            assert(init[i] == ws[i]);
        }
        lemma_split_joined(init, c);
        lemma_split_single(ws.last(), c);
        lemma_split_concat(join_with(init, seq![c]), ws.last(), c);
        assert(init + seq![ws.last()] =~= ws);
    }
}

/// The pieces of `v[from..]` between occurrences of `c`.
fn split_from(v: &Vec<char>, from: usize, c: char) -> (r: Vec<String>)
    requires
        from <= v.len(),
    ensures
        r@.len() == split_seq(v@.subrange(from as int, v@.len() as int), c).len(),
        forall|i: int|
            0 <= i < r@.len() ==> #[trigger] r@[i]@ == split_seq(
                v@.subrange(from as int, v@.len() as int),
                c,
            )[i],
    decreases v.len() - from,
{
    let ghost s = v@.subrange(from as int, v@.len() as int);
    // find the first separator at or after `from`
    let mut j = from;
    while j < v.len() && v[j] != c
        invariant
            from <= j <= v.len(),
            forall|k: int| from <= k < j ==> v@[k] != c,
        decreases v.len() - j,
    {
        j += 1;
    }
    let piece = string_of_range(v, from, j);
    let mut out: Vec<String> = Vec::new();
    out.push(piece);
    if j < v.len() {
        let rest = split_from(v, j + 1, c);
        proof {
            lemma_split_prefix(v@, from as int, j as int, c);
        }
        let mut k: usize = 0;
        while k < rest.len()
            invariant
                k <= rest.len(),
                out@.len() == k + 1,
                out@[0]@ == v@.subrange(from as int, j as int),
                forall|m: int| 1 <= m <= k ==> #[trigger] out@[m]@ == rest@[m - 1]@,
            decreases rest.len() - k,
        {
            let ghost snapshot = out@;
            let item = owned(rest[k].as_str());
            out.push(item);
            assert forall|m: int| 1 <= m <= k + 1 implies #[trigger] out@[m]@ == rest@[m - 1]@ by {
                if m <= k {
                    assert(out@[m] == snapshot[m]);
                }
            }
            k += 1;
        }
        proof {
            let tail = v@.subrange(j + 1, v@.len() as int);
            lemma_split_nonempty(tail, c);
        }
        out
    } else {
        proof {
            lemma_split_no_sep(v@, from as int, c);
        }
        out
    }
}

/// Lemma: when `v[from..]` holds no separator, it splits into itself.
proof fn lemma_split_no_sep(v: Seq<char>, from: int, c: char)
    requires
        0 <= from <= v.len(),
        forall|k: int| from <= k < v.len() ==> v[k] != c,
    ensures
        split_seq(v.subrange(from, v.len() as int), c) == seq![v.subrange(from, v.len() as int)],
    decreases v.len() - from,
{
    let s = v.subrange(from, v.len() as int);
    if from < v.len() {
        lemma_split_no_sep(v, from + 1, c);
        assert(s.drop_first() == v.subrange(from + 1, v.len() as int));
        assert(seq![s[0]] + v.subrange(from + 1, v.len() as int) == s);
    } else {
        assert(s == Seq::<char>::empty());
    }
}

/// Lemma: when the first separator of `v[from..]` is at `j`, the pieces are `v[from..j]`
/// followed by the pieces of `v[j+1..]`.
proof fn lemma_split_prefix(v: Seq<char>, from: int, j: int, c: char)
    requires
        0 <= from <= j < v.len(),
        v[j] == c,
        forall|k: int| from <= k < j ==> v[k] != c,
    ensures
        split_seq(v.subrange(from, v.len() as int), c) == seq![v.subrange(from, j)] + split_seq(
            v.subrange(j + 1, v.len() as int),
            c,
        ),
    decreases j - from,
{
    let s = v.subrange(from, v.len() as int);
    assert(s.drop_first() == v.subrange(from + 1, v.len() as int));
    if from == j {
        assert(v.subrange(from, j) == Seq::<char>::empty());
    } else {
        lemma_split_prefix(v, from + 1, j, c);
        let rest = split_seq(v.subrange(from + 1, v.len() as int), c);
        assert(rest[0] == v.subrange(from + 1, j));
        assert(seq![v[from]] + v.subrange(from + 1, j) == v.subrange(from, j));
        assert(rest.update(0, seq![s[0]] + rest[0]) == seq![v.subrange(from, j)] + split_seq(
            v.subrange(j + 1, v.len() as int),
            c,
        ));
    }
}

// ---------------------------------------------------------------------------
// Decimal numbers
// ---------------------------------------------------------------------------

/// The decimal digit character for `d < 10`.
pub open spec fn digit_char(d: nat) -> char {
    ((d + 48) as u32) as char
}

/// The decimal representation of a natural number, without leading zeros.
pub open spec fn nat_decimal(n: nat) -> Seq<char>
    decreases n,
{
    if n < 10 {
        seq![digit_char(n)]
    } else {
        nat_decimal(n / 10).push(digit_char(n % 10))
    }
}

/// The decimal representation of an integer, with a leading `-` when negative
/// (what `to_string` gives for Rust integers).
pub open spec fn int_decimal(n: int) -> Seq<char> {
    if n < 0 {
        seq!['-'] + nat_decimal((-n) as nat)
    } else {
        nat_decimal(n as nat)
    }
}

/// The digit character for `d < 10`.
fn digit(d: u64) -> (c: char)
    requires
        d < 10,
    ensures
        c == digit_char(d as nat),
{
    let u: u8 = (d as u8) + 48;
    u as char
}

/// The decimal representation of `n`.
pub fn u64_to_decimal(n: u64) -> (r: String)
    ensures
        r@ == nat_decimal(n as nat),
    decreases n,
{
    if n < 10 {
        let mut r = String::new();
        push_char(&mut r, digit(n));
        r
    } else {
        let mut r = u64_to_decimal(n / 10);
        push_char(&mut r, digit(n % 10));
        r
    }
}

/// The decimal representation of `n` (`i64::to_string`).
pub fn i64_to_decimal(n: i64) -> (r: String)
    ensures
        r@ == int_decimal(n as int),
{
    if n < 0 {
        let m: u64 = if n == i64::MIN {
            9223372036854775808u64
        } else {
            (-n) as u64
        };
        let digits = u64_to_decimal(m);
        proof {
            reveal_strlit("-");
        }
        concat2("-", digits.as_str())
    } else {
        u64_to_decimal(n as u64)
    }
}


// ---------------------------------------------------------------------------
// Searching and joining
// ---------------------------------------------------------------------------

/// The position of the first `c` in `s`, if any (`str::find` with a character, counted
/// in characters).
pub open spec fn char_index(s: Seq<char>, c: char) -> Option<int> {
    if exists|i: int| 0 <= i < s.len() && s[i] == c {
        Some(choose|i: int| 0 <= i < s.len() && s[i] == c && forall|j: int| 0 <= j < i ==> s[j] != c)
    } else {
        None
    }
}

/// The position of the first `c` in `v`, if any.
pub fn find_char(v: &Vec<char>, c: char) -> (r: Option<usize>)
    ensures
        match r {
            Some(i) => char_index(v@, c) == Some(i as int) && i < v@.len() && v@[i as int] == c,
            None => char_index(v@, c) is None,
        },
{
    let mut i: usize = 0;
    while i < v.len()
        invariant
            i <= v.len(),
            forall|j: int| 0 <= j < i ==> v@[j] != c,
        decreases v.len() - i,
    {
        if v[i] == c {
            let ghost k = choose|k: int| 0 <= k < v@.len() && v@[k] == c && forall|j: int| 0 <= j < k ==> v@[j] != c;
            assert(0 <= i < v@.len() && v@[i as int] == c && forall|j: int| 0 <= j < i ==> v@[j] != c);
            assert(k == i as int) by {
                if k < i {
                    assert(v@[k] != c);
                } else if k > i {
                    assert(v@[i as int] != c);
                }
            }
            return Some(i);
        }
        i += 1;
    }
    None
}

/// The last position at which `p` occurs in `s`, if any (`str::rfind`, counted in
/// characters).
pub open spec fn last_occurrence(s: Seq<char>, p: Seq<char>) -> Option<int> {
    if contains_seq(s, p) {
        Some(choose|i: int| occurs_at(s, p, i) && forall|j: int| i < j ==> !occurs_at(s, p, j))
    } else {
        None
    }
}

/// The last position at which `p` occurs in `v`, if any.
pub fn rfind(v: &Vec<char>, p: &Vec<char>) -> (r: Option<usize>)
    ensures
        match r {
            Some(i) => last_occurrence(v@, p@) == Some(i as int) && i + p@.len() <= v@.len(),
            None => last_occurrence(v@, p@) is None,
        },
{
    if p.len() > v.len() {
        assert forall|i: int| !occurs_at(v@, p@, i) by {}
        return None;
    }
    let mut i: usize = v.len() - p.len();
    loop
        invariant
            p.len() <= v.len(),
            i <= v.len() - p.len(),
            forall|j: int| i < j ==> !occurs_at(v@, p@, j),
        ensures
            forall|j: int| 0 <= j ==> !occurs_at(v@, p@, j),
        decreases i,
    {
        if occurs_at_exec(v, p, i) {
            let ghost k = choose|k: int| occurs_at(v@, p@, k) && forall|j: int| k < j ==> !occurs_at(v@, p@, j);
            assert(occurs_at(v@, p@, i as int) && forall|j: int| i < j ==> !occurs_at(v@, p@, j));
            assert(k == i as int) by {
                if k < i {
                    assert(!occurs_at(v@, p@, i as int));
                } else if k > i {
                    assert(!occurs_at(v@, p@, k));
                }
            }
            return Some(i);
        }
        if i == 0 {
            break;
        }
        i -= 1;
    }
    assert forall|j: int| !occurs_at(v@, p@, j) by {
        if j < 0 {
        }
    }
    None
}

/// The texts of `ws` joined with `sep` between them.
pub open spec fn join_with(ws: Seq<Seq<char>>, sep: Seq<char>) -> Seq<char>
    decreases ws.len(),
{
    if ws.len() == 0 {
        Seq::empty()
    } else if ws.len() == 1 {
        ws[0]
    } else {
        join_with(ws.drop_last(), sep) + sep + ws.last()
    }
}

/// The strings of `v` joined with `sep` between them (`[String]::join`).
pub fn join_strings(v: &Vec<String>, sep: &str) -> (r: String)
    ensures
        r@ == join_with(v@.map_values(|x: String| x@), sep@),
{
    let ghost ws = v@.map_values(|x: String| x@);
    let mut out = String::new();
    let mut i: usize = 0;
    while i < v.len()
        invariant
            i <= v.len(),
            ws == v@.map_values(|x: String| x@),
            out@ == join_with(ws.take(i as int), sep@),
        decreases v.len() - i,
    {
        assert(ws.take(i + 1).drop_last() == ws.take(i as int));
        assert(ws.take(i + 1).last() == v@[i as int]@);
        if i == 0 {
            out = owned(v[i].as_str());
            assert(join_with(ws.take(1), sep@) == ws.take(1)[0]);
        } else {
            out = concat3(out.as_str(), sep, v[i].as_str());
        }
        i += 1;
    }
    assert(ws.take(v.len() as int) == ws);
    out
}


/// Appends `t` to `out` (`String::push_str`).
pub fn append(out: &mut String, t: &str)
    ensures
        final(out)@ == old(out)@ + t@,
{
    let ghost start = out@;
    for c in it: t.chars()
        invariant
            out@ == start + it.seq().take(it.index() as int),
            it.seq() == t@,
    {
        push_char(out, c);
        assert(start + it.seq().take(it.index() + 1) == (start + it.seq().take(it.index() as int)).push(c));
    }
    assert(t@.take(t@.len() as int) == t@);
}


/// Lemma: no piece of `split_seq(s, c)` holds the separator `c`.
pub proof fn lemma_split_pieces_lack_separator(s: Seq<char>, c: char)
    ensures
        forall|i: int, j: int|
            0 <= i < split_seq(s, c).len() && 0 <= j < split_seq(s, c)[i].len() ==> #[trigger] split_seq(s, c)[i][j] != c,
    decreases s.len(),
{
    if s.len() > 0 {
        lemma_split_pieces_lack_separator(s.drop_first(), c);
        lemma_split_nonempty(s.drop_first(), c);
        let rest = split_seq(s.drop_first(), c);
        if s[0] == c {
            assert forall|i: int, j: int|
                0 <= i < split_seq(s, c).len() && 0 <= j < split_seq(s, c)[i].len() implies #[trigger] split_seq(s, c)[i][j] != c by {
                if i > 0 {
                    assert(split_seq(s, c)[i] == rest[i - 1]);
                }
            }
        } else {
            assert forall|i: int, j: int|
                0 <= i < split_seq(s, c).len() && 0 <= j < split_seq(s, c)[i].len() implies #[trigger] split_seq(s, c)[i][j] != c by {
                if i == 0 {
                    assert(split_seq(s, c)[0] == seq![s[0]] + rest[0]);
                    if j > 0 {
                        assert(split_seq(s, c)[0][j] == rest[0][j - 1]);
                    }
                } else {
                    assert(split_seq(s, c)[i] == rest[i]);
                }
            }
        }
    }
}

// ---------------------------------------------------------------------------
// Words
// ---------------------------------------------------------------------------

/// The words of `s`: its maximal runs of characters that are not whitespace, in order
/// (`str::split_whitespace`).
pub open spec fn words_seq(s: Seq<char>) -> Seq<Seq<char>>
    decreases s.len(),
{
    if s.len() == 0 {
        Seq::empty()
    } else {
        let w = words_seq(s.drop_last());
        let c = s.last();
        if is_ws(c) {
            w
        } else if s.len() >= 2 && !is_ws(s[s.len() - 2]) && w.len() > 0 {
            w.update(w.len() - 1, w.last().push(c))
        } else {
            w.push(seq![c])
        }
    }
}

/// The words of `s` (`str::split_whitespace` collected).
pub fn split_whitespace(s: &str) -> (r: Vec<String>)
    ensures
        crate::model::strings_view(r@) == words_seq(s@),
{
    let v = chars_of(s);
    let mut out: Vec<String> = Vec::new();
    let mut cur = String::new();
    let mut in_word = false;
    let mut i: usize = 0;
    while i < v.len()
        invariant
            i <= v@.len(),
            v@ == s@,
            in_word == (i > 0 && !is_ws(v@[i - 1])),
            in_word ==> words_seq(v@.take(i as int)).len() > 0
                && crate::model::strings_view(out@) == words_seq(v@.take(i as int)).drop_last()
                && cur@ == words_seq(v@.take(i as int)).last(),
            !in_word ==> crate::model::strings_view(out@) == words_seq(v@.take(i as int)) && cur@.len() == 0,
        decreases v@.len() - i,
    {
        let c = v[i];
        let ghost pre = v@.take(i as int);
        let ghost now = v@.take(i as int + 1);
        assert(now.drop_last() =~= pre);
        assert(now.last() == c);
        if is_whitespace(c) {
            if in_word {
                let ghost w = words_seq(pre);
                let ghost before = out@;
                let word = cur;
                out.push(word);
                cur = String::new();
                assert(crate::model::strings_view(out@) =~= crate::model::strings_view(before).push(w.last()));
                assert(w.drop_last().push(w.last()) =~= w);
                assert(words_seq(now) == w);
            }
            in_word = false;
        } else {
            push_char(&mut cur, c);
            if in_word {
                assert(now.len() >= 2 && now[now.len() - 2] == v@[i - 1]);
            } else {
                assert(words_seq(now) == words_seq(pre).push(seq![c]));
                assert(cur@ =~= seq![c]);
            }
            in_word = true;
            assert(crate::model::strings_view(out@) =~= words_seq(now).drop_last());
        }
        i = i + 1;
    }
    assert(v@.take(i as int) =~= s@);
    if in_word {
        let ghost w = words_seq(s@);
        let ghost before = out@;
        out.push(cur);
        assert(crate::model::strings_view(out@) =~= crate::model::strings_view(before).push(w.last()));
        assert(w.drop_last().push(w.last()) =~= w);
    }
    out
}

} // verus!
