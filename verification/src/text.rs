//! Character-level text utilities with their mathematical specifications.
//!
//! Strings are reasoned about through their character sequences (`s@`). The
//! exec helpers here work on `Vec<char>` and convert at the edges.

use vstd::prelude::*;

verus! {

// ---------------------------------------------------------------------------
// Whitespace
// ---------------------------------------------------------------------------

/// Unicode `White_Space` property (the set `char::is_whitespace` tests).
pub open spec fn is_ws(c: char) -> bool {
    let u = c as u32;
    ||| (9 <= u && u <= 13)
    ||| u == 32
    ||| u == 0x85
    ||| u == 0xA0
    ||| u == 0x1680
    ||| (0x2000 <= u && u <= 0x200A)
    ||| u == 0x2028
    ||| u == 0x2029
    ||| u == 0x202F
    ||| u == 0x205F
    ||| u == 0x3000
}

/// Whether `c` is Unicode whitespace.
pub fn char_is_ws(c: char) -> (r: bool)
    ensures
        r == is_ws(c),
{
    let u = c as u32;
    (9 <= u && u <= 13) || u == 32 || u == 0x85 || u == 0xA0 || u == 0x1680 || (0x2000 <= u
        && u <= 0x200A) || u == 0x2028 || u == 0x2029 || u == 0x202F || u == 0x205F || u == 0x3000
}

/// `s` with leading whitespace removed.
pub open spec fn trim_start(s: Seq<char>) -> Seq<char>
    decreases s.len(),
{
    if s.len() > 0 && is_ws(s[0]) {
        trim_start(s.drop_first())
    } else {
        s
    }
}

/// `s` with trailing whitespace removed.
pub open spec fn trim_end(s: Seq<char>) -> Seq<char>
    decreases s.len(),
{
    if s.len() > 0 && is_ws(s.last()) {
        trim_end(s.drop_last())
    } else {
        s
    }
}

/// `s` with leading and trailing whitespace removed (`str::trim`).
pub open spec fn trim(s: Seq<char>) -> Seq<char> {
    trim_end(trim_start(s))
}

/// Whether `s` is empty after trimming (blank).
pub open spec fn is_blank(s: Seq<char>) -> bool {
    trim(s).len() == 0
}

proof fn lemma_trim_start_skip(s: Seq<char>, i: int)
    requires
        0 <= i <= s.len(),
        forall|j: int| 0 <= j < i ==> is_ws(#[trigger] s[j]),
    ensures
        trim_start(s) == trim_start(s.subrange(i, s.len() as int)),
    decreases i,
{
    if i > 0 {
        assert(s.drop_first() =~= s.subrange(1, s.len() as int));
        lemma_trim_start_skip(s.drop_first(), i - 1);
        assert(s.drop_first().subrange(i - 1, s.drop_first().len() as int) =~= s.subrange(
            i,
            s.len() as int,
        ));
    } else {
        assert(s.subrange(0, s.len() as int) =~= s);
    }
}

proof fn lemma_trim_end_skip(s: Seq<char>, k: int)
    requires
        0 <= k <= s.len(),
        forall|j: int| k <= j < s.len() ==> is_ws(#[trigger] s[j]),
    ensures
        trim_end(s) == trim_end(s.subrange(0, k)),
    decreases s.len() - k,
{
    if k < s.len() {
        lemma_trim_end_skip(s.drop_last(), k);
        assert(s.drop_last().subrange(0, k) =~= s.subrange(0, k));
    } else {
        assert(s.subrange(0, k) =~= s);
    }
}

/// The characters of `v` in `lo..hi`.
pub fn slice_chars(v: &Vec<char>, lo: usize, hi: usize) -> (r: Vec<char>)
    requires
        lo <= hi <= v.len(),
    ensures
        r@ == v@.subrange(lo as int, hi as int),
{
    let mut r: Vec<char> = Vec::new();
    let mut i = lo;
    while i < hi
        invariant
            lo <= i <= hi <= v.len(),
            r@ == v@.subrange(lo as int, i as int),
        decreases hi - i,
    {
        r.push(v[i]);
        i = i + 1;
        assert(r@ =~= v@.subrange(lo as int, i as int));
    }
    r
}

/// `str::trim` on a character vector.
pub fn trim_chars(v: &Vec<char>) -> (r: Vec<char>)
    ensures
        r@ == trim(v@),
{
    let n = v.len();
    let mut lo: usize = 0;
    while lo < n && char_is_ws(v[lo])
        invariant
            lo <= n == v.len(),
            forall|j: int| 0 <= j < lo ==> is_ws(#[trigger] v@[j]),
        decreases n - lo,
    {
        lo = lo + 1;
    }
    let mut hi: usize = n;
    while hi > lo && char_is_ws(v[hi - 1])
        invariant
            lo <= hi <= n == v.len(),
            forall|j: int| hi <= j < n ==> is_ws(#[trigger] v@[j]),
        decreases hi,
    {
        hi = hi - 1;
    }
    proof {
        lemma_trim_start_skip(v@, lo as int);
        let t = v@.subrange(lo as int, n as int);
        assert(trim_start(t) == t);
        lemma_trim_end_skip(t, (hi - lo) as int);
        assert(t.subrange(0, (hi - lo) as int) =~= v@.subrange(lo as int, hi as int));
        let u = v@.subrange(lo as int, hi as int);
        if u.len() > 0 {
            assert(!is_ws(u.last()));
        }
        assert(trim_end(u) == u);
    }
    slice_chars(v, lo, hi)
}

// ---------------------------------------------------------------------------
// Substrings
// ---------------------------------------------------------------------------

/// `t` is a prefix of `s`.
pub open spec fn starts_with(s: Seq<char>, t: Seq<char>) -> bool {
    t.len() <= s.len() && s.subrange(0, t.len() as int) == t
}

/// `t` is a suffix of `s`.
pub open spec fn ends_with(s: Seq<char>, t: Seq<char>) -> bool {
    t.len() <= s.len() && s.subrange(s.len() - t.len(), s.len() as int) == t
}

/// `t` occurs in `s` starting at `i`.
pub open spec fn occurs_at(s: Seq<char>, t: Seq<char>, i: int) -> bool {
    0 <= i && i + t.len() <= s.len() && s.subrange(i, i + t.len()) == t
}

/// `t` occurs somewhere in `s` (`str::contains`).
pub open spec fn contains(s: Seq<char>, t: Seq<char>) -> bool {
    exists|i: int| occurs_at(s, t, i)
}

/// Whether `t` occurs in `s` at position `i`.
pub fn occurs_at_exec(s: &Vec<char>, t: &Vec<char>, i: usize) -> (r: bool)
    ensures
        r == occurs_at(s@, t@, i as int),
{
    if t.len() > s.len() || i > s.len() - t.len() {
        return false;
    }
    let mut j: usize = 0;
    while j < t.len()
        invariant
            i + t.len() <= s.len(),
            j <= t.len(),
            forall|k: int| 0 <= k < j ==> s@[i + k] == t@[k],
        decreases t.len() - j,
    {
        if s[i + j] != t[j] {
            assert(s@.subrange(i as int, i + t.len())[j as int] != t@[j as int]);
            return false;
        }
        j = j + 1;
    }
    assert(s@.subrange(i as int, i + t.len()) =~= t@);
    true
}

/// Whether `s` starts with `t`.
pub fn starts_with_exec(s: &Vec<char>, t: &Vec<char>) -> (r: bool)
    ensures
        r == starts_with(s@, t@),
{
    occurs_at_exec(s, t, 0)
}

/// Whether `s` ends with `t`.
pub fn ends_with_exec(s: &Vec<char>, t: &Vec<char>) -> (r: bool)
    ensures
        r == ends_with(s@, t@),
{
    if t.len() > s.len() {
        return false;
    }
    occurs_at_exec(s, t, s.len() - t.len())
}

/// Whether `t` occurs in `s`.
pub fn contains_exec(s: &Vec<char>, t: &Vec<char>) -> (r: bool)
    ensures
        r == contains(s@, t@),
{
    if t.len() > s.len() {
        assert forall|i: int| !occurs_at(s@, t@, i) by {}
        return false;
    }
    let last = s.len() - t.len();
    let mut i: usize = 0;
    while i < last
        invariant
            t.len() <= s.len(),
            last == s.len() - t.len(),
            i <= last,
            forall|k: int| 0 <= k < i ==> !occurs_at(s@, t@, k),
        decreases last - i,
    {
        if occurs_at_exec(s, t, i) {
            return true;
        }
        i = i + 1;
    }
    if occurs_at_exec(s, t, last) {
        return true;
    }
    assert forall|k: int| !occurs_at(s@, t@, k) by {
        if 0 <= k && k + t@.len() <= s@.len() {
            assert(k <= last);
        }
    }
    false
}

// ---------------------------------------------------------------------------
// Conversions
// ---------------------------------------------------------------------------

/// The characters of a string slice.
pub fn chars_of(s: &str) -> (v: Vec<char>)
    ensures
        v@ == s@,
{
    let mut v: Vec<char> = Vec::new();
    for c in it: s.chars()
        invariant
            v@ == it.seq().take(it.index() as int),
            it.seq() == s@,
    {
        v.push(c);
    }
    v
}

/// Collects characters into a `String` (std `FromIterator<char> for String`).
#[verifier::external_body]
pub(crate) fn string_of(v: &Vec<char>) -> (s: String)
    ensures
        s@ == v@,
{
    v.iter().collect()
}

/// Name for the result of std `str::to_lowercase` (Unicode lowercase mapping,
/// including its context-sensitive rules), taken over character sequences.
pub uninterp spec fn lowercase(s: Seq<char>) -> Seq<char>;

/// The ASCII lowercase of a character: `A`..`Z` become `a`..`z`, every
/// other character stays.
pub open spec fn ascii_lower(c: char) -> char {
    if 'A' <= c && c <= 'Z' {
        ((c as u32) + 32) as char
    } else {
        c
    }
}

/// std `str::to_lowercase`: the Unicode lowercase of `s`. Its result is named
/// `lowercase`; the one fact claimed beyond the name is the one the Unicode
/// lowercase mapping gives for ASCII text: on text of ASCII characters only,
/// `A`..`Z` become `a`..`z` and every other character stays, one for one.
#[verifier::external_body]
pub(crate) fn to_lowercase(s: &str) -> (r: String)
    ensures
        r@ == lowercase(s@),
        (forall|i: int| 0 <= i < s@.len() ==> (#[trigger] s@[i] as u32) < 128) ==> r@ == s@.map_values(
            |c: char| ascii_lower(c),
        ),
{
    s.to_lowercase()
}

/// The lowercase of `s` as std's `to_lowercase` gives it: for ASCII text,
/// `A`..`Z` mapped to `a`..`z` and everything else kept; for other text the
/// Unicode mapping (named `lowercase`).
pub open spec fn lower(s: Seq<char>) -> Seq<char> {
    if all_ascii(s) {
        s.map_values(|c: char| ascii_lower(c))
    } else {
        lowercase(s)
    }
}

/// Lowercase of a character vector.
pub fn lower_chars(v: &Vec<char>) -> (r: Vec<char>)
    ensures
        r@ == lowercase(v@),
        r@ == lower(v@),
        (forall|i: int| 0 <= i < v@.len() ==> (#[trigger] v@[i] as u32) < 128) ==> r@ == v@.map_values(
            |c: char| ascii_lower(c),
        ),
{
    let s = string_of(v);
    let l = to_lowercase(s.as_str());
    let r = chars_of(l.as_str());
    proof {
        if all_ascii(v@) {
            assert(r@ =~= v@.map_values(|c: char| ascii_lower(c)));
        }
    }
    r
}


/// Every character of `s` is ASCII.
pub open spec fn all_ascii(s: Seq<char>) -> bool {
    forall|i: int| 0 <= i < s.len() ==> (#[trigger] s[i] as u32) < 128
}

/// The normalized word a keyword parser matches on: trimmed, then lowercased
/// (for ASCII text, `A`..`Z` mapped to `a`..`z`).
pub open spec fn keyword(s: Seq<char>) -> Seq<char> {
    let t = trim(s);
    if all_ascii(t) {
        t.map_values(|c: char| ascii_lower(c))
    } else {
        lowercase(t)
    }
}

/// A non-empty word of ASCII letters (either case) and underscores has as its
/// keyword the word with `A`..`Z` mapped to `a`..`z`.
pub proof fn lemma_keyword_of_ascii_word(w: Seq<char>)
    requires
        w.len() > 0,
        forall|i: int|
            0 <= i < w.len() ==> ('a' <= #[trigger] w[i] && w[i] <= 'z') || ('A' <= w[i] && w[i]
                <= 'Z') || w[i] == '_',
    ensures
        keyword(w) == w.map_values(|c: char| ascii_lower(c)),
{
    assert(!is_ws(w[0]));
    assert(trim_start(w) == w);
    assert(!is_ws(w.last()));
    assert(trim_end(w) == w);
    assert(all_ascii(w));
}

/// A non-empty word of lowercase ASCII letters and underscores is its own
/// keyword.
pub proof fn lemma_keyword_of_lower_word(w: Seq<char>)
    requires
        w.len() > 0,
        forall|i: int| 0 <= i < w.len() ==> ('a' <= #[trigger] w[i] && w[i] <= 'z') || w[i] == '_',
    ensures
        keyword(w) == w,
{
    lemma_keyword_of_ascii_word(w);
    assert(w.map_values(|c: char| ascii_lower(c)) =~= w);
}

/// Trims and lowercases `s`.
pub fn keyword_exec(s: &str) -> (r: Vec<char>)
    ensures
        r@ == keyword(s@),
{
    let t = trim_chars(&chars_of(s));
    lower_chars(&t)
}

// ---------------------------------------------------------------------------
// String order
// ---------------------------------------------------------------------------

/// `a` sorts before `b` (string order: by code point, a proper prefix
/// first; the same order as comparing the UTF-8 bytes).
pub open spec fn text_lt(a: Seq<char>, b: Seq<char>) -> bool
    decreases a.len(),
{
    if a.len() == 0 {
        b.len() > 0
    } else if b.len() == 0 {
        false
    } else if a[0] != b[0] {
        a[0] < b[0]
    } else {
        text_lt(a.drop_first(), b.drop_first())
    }
}

/// Whether `a` sorts before `b`.
pub fn text_lt_exec(a: &str, b: &str) -> (r: bool)
    ensures
        r == text_lt(a@, b@),
{
    let x = chars_of(a);
    let y = chars_of(b);
    let mut i: usize = 0;
    assert(x@.subrange(0, x@.len() as int) =~= x@);
    assert(y@.subrange(0, y@.len() as int) =~= y@);
    while i < x.len() && i < y.len() && x[i] == y[i]
        invariant
            i <= x@.len(),
            i <= y@.len(),
            text_lt(x@, y@) == text_lt(
                x@.subrange(i as int, x@.len() as int),
                y@.subrange(i as int, y@.len() as int),
            ),
        decreases x.len() - i,
    {
        assert(x@.subrange(i as int, x@.len() as int).drop_first() =~= x@.subrange(
            i + 1,
            x@.len() as int,
        ));
        assert(y@.subrange(i as int, y@.len() as int).drop_first() =~= y@.subrange(
            i + 1,
            y@.len() as int,
        ));
        i = i + 1;
    }
    if i == x.len() {
        i < y.len()
    } else if i == y.len() {
        false
    } else {
        x[i] < y[i]
    }
}

pub proof fn lemma_text_lt_asym(a: Seq<char>, b: Seq<char>)
    ensures
        a != b ==> (text_lt(a, b) <==> !text_lt(b, a)),
        !text_lt(a, a),
    decreases a.len(),
{
    if a.len() > 0 && b.len() > 0 && a[0] == b[0] {
        lemma_text_lt_asym(a.drop_first(), b.drop_first());
        if a != b {
            assert(a.drop_first() != b.drop_first()) by {
                if a.drop_first() == b.drop_first() {
                    assert(a =~= seq![a[0]] + a.drop_first());
                    assert(b =~= seq![b[0]] + b.drop_first());
                }
            }
        }
    }
    if a.len() > 0 {
        lemma_text_lt_asym(a.drop_first(), a.drop_first());
    }
    if a.len() == 0 && b.len() == 0 {
        assert(a =~= b);
    }
}

pub proof fn lemma_text_lt_trans(a: Seq<char>, b: Seq<char>, c: Seq<char>)
    requires
        text_lt(a, b),
        text_lt(b, c),
    ensures
        text_lt(a, c),
    decreases a.len(),
{
    if a.len() > 0 && b.len() > 0 && c.len() > 0 && a[0] == b[0] && b[0] == c[0] {
        lemma_text_lt_trans(a.drop_first(), b.drop_first(), c.drop_first());
    }
}

// ---------------------------------------------------------------------------
// Equality and concatenation
// ---------------------------------------------------------------------------

/// Whether two character vectors are equal.
pub fn seq_eq(a: &Vec<char>, b: &Vec<char>) -> (r: bool)
    ensures
        r == (a@ == b@),
{
    if a.len() != b.len() {
        return false;
    }
    let mut i: usize = 0;
    while i < a.len()
        invariant
            a.len() == b.len(),
            i <= a.len(),
            forall|k: int| 0 <= k < i ==> a@[k] == b@[k],
        decreases a.len() - i,
    {
        if a[i] != b[i] {
            return false;
        }
        i = i + 1;
    }
    assert(a@ =~= b@);
    true
}

/// Whether the characters of `a` spell the literal `lit`.
pub fn eq_lit(a: &Vec<char>, lit: &str) -> (r: bool)
    ensures
        r == (a@ == lit@),
{
    let l = chars_of(lit);
    seq_eq(a, &l)
}

/// Whether `a` starts with the literal `lit`.
pub fn starts_with_lit(a: &Vec<char>, lit: &str) -> (r: bool)
    ensures
        r == starts_with(a@, lit@),
{
    let l = chars_of(lit);
    starts_with_exec(a, &l)
}

/// Whether `a` contains the literal `lit`.
pub fn contains_lit(a: &Vec<char>, lit: &str) -> (r: bool)
    ensures
        r == contains(a@, lit@),
{
    let l = chars_of(lit);
    contains_exec(a, &l)
}

/// Appends every character of `src` to `dst`.
pub fn push_all(dst: &mut Vec<char>, src: &Vec<char>)
    ensures
        final(dst)@ == old(dst)@ + src@,
{
    let ghost d0 = dst@;
    let mut i: usize = 0;
    while i < src.len()
        invariant
            i <= src.len(),
            dst@ == d0 + src@.subrange(0, i as int),
        decreases src.len() - i,
    {
        dst.push(src[i]);
        i = i + 1;
        assert(dst@ =~= d0 + src@.subrange(0, i as int));
    }
    assert(src@.subrange(0, src.len() as int) =~= src@);
}

/// Appends the characters of the literal `lit` to `dst`.
pub fn push_lit(dst: &mut Vec<char>, lit: &str)
    ensures
        final(dst)@ == old(dst)@ + lit@,
{
    let l = chars_of(lit);
    push_all(dst, &l);
}

/// `a + b + c` where `a` and `c` are literals.
pub fn wrap_lit(a: &str, b: &Vec<char>, c: &str) -> (r: Vec<char>)
    ensures
        r@ == a@ + b@ + c@,
{
    let mut r = chars_of(a);
    push_all(&mut r, b);
    push_lit(&mut r, c);
    r
}

// ---------------------------------------------------------------------------
// Whitespace-separated tokens
// ---------------------------------------------------------------------------

/// The views of a sequence of character vectors.
pub open spec fn views(v: Seq<Vec<char>>) -> Seq<Seq<char>> {
    Seq::new(v.len(), |i: int| v[i]@)
}

/// Whitespace splitting from position `i` with the current token `cur` and
/// the tokens `out` already produced.
pub open spec fn split_ws_from(s: Seq<char>, i: int, cur: Seq<char>, out: Seq<Seq<char>>) -> Seq<
    Seq<char>,
>
    decreases s.len() - i,
{
    if i >= s.len() {
        if cur.len() > 0 {
            out.push(cur)
        } else {
            out
        }
    } else if is_ws(s[i]) {
        split_ws_from(
            s,
            i + 1,
            Seq::empty(),
            if cur.len() > 0 {
                out.push(cur)
            } else {
                out
            },
        )
    } else {
        split_ws_from(s, i + 1, cur.push(s[i]), out)
    }
}

/// The non-empty whitespace-separated tokens of `s` (`str::split_whitespace`).
pub open spec fn split_ws(s: Seq<char>) -> Seq<Seq<char>> {
    split_ws_from(s, 0, Seq::empty(), Seq::empty())
}

/// Splits a character vector on whitespace.
pub fn split_ws_exec(s: &Vec<char>) -> (r: Vec<Vec<char>>)
    ensures
        views(r@) == split_ws(s@),
{
    let mut out: Vec<Vec<char>> = Vec::new();
    let mut cur: Vec<char> = Vec::new();
    let mut i: usize = 0;
    assert(views(out@) =~= Seq::<Seq<char>>::empty());
    assert(cur@ =~= Seq::<char>::empty());
    while i < s.len()
        invariant
            i <= s.len(),
            split_ws(s@) == split_ws_from(s@, i as int, cur@, views(out@)),
        decreases s.len() - i,
    {
        if char_is_ws(s[i]) {
            if cur.len() > 0 {
                let ghost o = views(out@);
                let t = cur;
                out.push(t);
                cur = Vec::new();
                assert(views(out@) =~= o.push(t@));
            } else {
                cur = Vec::new();
            }
            assert(cur@ =~= Seq::<char>::empty());
        } else {
            cur.push(s[i]);
        }
        i = i + 1;
    }
    if cur.len() > 0 {
        let ghost o = views(out@);
        let t = cur;
        out.push(t);
        assert(views(out@) =~= o.push(t@));
    }
    out
}

/// Maps `lower` over a sequence of tokens.
pub open spec fn lower_each(v: Seq<Seq<char>>) -> Seq<Seq<char>> {
    Seq::new(v.len(), |i: int| lower(v[i]))
}

/// Lowercases every token.
pub fn lower_each_exec(v: &Vec<Vec<char>>) -> (r: Vec<Vec<char>>)
    ensures
        views(r@) == lower_each(views(v@)),
{
    let mut r: Vec<Vec<char>> = Vec::new();
    let mut i: usize = 0;
    assert(views(r@) =~= lower_each(views(v@)).subrange(0, 0));
    while i < v.len()
        invariant
            i <= v.len(),
            views(r@) == lower_each(views(v@)).subrange(0, i as int),
        decreases v.len() - i,
    {
        let l = lower_chars(&v[i]);
        assert(l@ == lower_each(views(v@))[i as int]);
        let ghost o = views(r@);
        r.push(l);
        assert(views(r@) =~= o.push(l@));
        i = i + 1;
        assert(views(r@) =~= lower_each(views(v@)).subrange(0, i as int));
    }
    assert(lower_each(views(v@)).subrange(0, v.len() as int) =~= lower_each(views(v@)));
    r
}


/// Whether two string slices are equal.
pub fn str_eq(a: &str, b: &str) -> (r: bool)
    ensures
        r == (a@ == b@),
{
    let x = chars_of(a);
    let y = chars_of(b);
    seq_eq(&x, &y)
}

/// A copy of a character vector.
pub fn copy_chars(v: &Vec<char>) -> (r: Vec<char>)
    ensures
        r@ == v@,
{
    let r = slice_chars(v, 0, v.len());
    assert(v@.subrange(0, v.len() as int) =~= v@);
    r
}

/// Copies of the tokens `v[lo..]`.
pub fn tokens_from(v: &Vec<Vec<char>>, lo: usize) -> (r: Vec<Vec<char>>)
    requires
        lo <= v.len(),
    ensures
        views(r@) == views(v@).subrange(lo as int, v.len() as int),
{
    tokens_range(v, lo, v.len())
}

/// Copies of the tokens `v[lo..hi]`.
pub fn tokens_range(v: &Vec<Vec<char>>, lo: usize, hi: usize) -> (r: Vec<Vec<char>>)
    requires
        lo <= hi <= v.len(),
    ensures
        views(r@) == views(v@).subrange(lo as int, hi as int),
{
    let mut r: Vec<Vec<char>> = Vec::new();
    let mut i = lo;
    assert(views(r@) =~= views(v@).subrange(lo as int, lo as int));
    while i < hi
        invariant
            lo <= i <= hi <= v.len(),
            views(r@) == views(v@).subrange(lo as int, i as int),
        decreases v.len() - i,
    {
        let c = copy_chars(&v[i]);
        let ghost o = views(r@);
        r.push(c);
        assert(views(r@) =~= o.push(c@));
        i = i + 1;
        assert(views(r@) =~= views(v@).subrange(lo as int, i as int));
    }
    r
}

/// Index of the first occurrence of `c` in `s`, or `-1`.
pub open spec fn first_index_of(s: Seq<char>, c: char) -> int
    decreases s.len(),
{
    if s.len() == 0 {
        -1
    } else if s[0] == c {
        0
    } else if first_index_of(s.drop_first(), c) < 0 {
        -1
    } else {
        first_index_of(s.drop_first(), c) + 1
    }
}

pub proof fn lemma_first_index_of_bounds(s: Seq<char>, c: char)
    ensures
        -1 <= first_index_of(s, c) < s.len(),
        first_index_of(s, c) >= 0 ==> s[first_index_of(s, c)] == c,
        first_index_of(s, c) < 0 ==> forall|j: int| 0 <= j < s.len() ==> s[j] != c,
    decreases s.len(),
{
    if s.len() > 0 && s[0] != c {
        lemma_first_index_of_bounds(s.drop_first(), c);
        assert forall|j: int| 0 <= j < s.len() && first_index_of(s, c) < 0 implies s[j] != c by {
            if j > 0 {
                assert(s.drop_first()[j - 1] == s[j]);
            }
        }
    }
}

/// The first `c` in `s` is at `k` when `s[k]` is `c` and no earlier
/// character is.
pub proof fn lemma_first_index_of_at(s: Seq<char>, c: char, k: int)
    requires
        0 <= k < s.len(),
        s[k] == c,
        forall|j: int| 0 <= j < k ==> s[j] != c,
    ensures
        first_index_of(s, c) == k,
    decreases k,
{
    if k > 0 {
        assert forall|j: int| 0 <= j < k - 1 implies s.drop_first()[j] != c by {
            assert(s.drop_first()[j] == s[j + 1]);
        }
        assert(s[0] != c);
        lemma_first_index_of_at(s.drop_first(), c, k - 1);
    }
}

/// Position of the first `c` in `s`, if any.
pub fn first_index_of_exec(s: &Vec<char>, c: char) -> (r: Option<usize>)
    ensures
        match r {
            Some(k) => first_index_of(s@, c) == k as int,
            None => first_index_of(s@, c) == -1,
        },
{
    let mut i: usize = 0;
    assert(s@.subrange(0, s.len() as int) =~= s@);
    while i < s.len()
        invariant
            i <= s.len(),
            first_index_of(s@, c) == (if first_index_of(s@.subrange(i as int, s.len() as int), c) < 0 {
                -1
            } else {
                first_index_of(s@.subrange(i as int, s.len() as int), c) + i
            }),
        decreases s.len() - i,
    {
        let ghost rest = s@.subrange(i as int, s.len() as int);
        if s[i] == c {
            assert(rest[0] == c);
            return Some(i);
        }
        assert(rest.drop_first() =~= s@.subrange(i + 1, s.len() as int));
        i = i + 1;
    }
    None
}

/// Index of the last occurrence of `c` in `s`, or `-1`.
pub open spec fn last_index_of(s: Seq<char>, c: char) -> int
    decreases s.len(),
{
    if s.len() == 0 {
        -1
    } else if s.last() == c {
        s.len() - 1
    } else {
        last_index_of(s.drop_last(), c)
    }
}

pub proof fn lemma_last_index_of_bounds(s: Seq<char>, c: char)
    ensures
        -1 <= last_index_of(s, c) < s.len(),
        last_index_of(s, c) >= 0 ==> s[last_index_of(s, c)] == c,
        forall|j: int| last_index_of(s, c) < j < s.len() ==> s[j] != c,
    decreases s.len(),
{
    if s.len() > 0 && s.last() != c {
        lemma_last_index_of_bounds(s.drop_last(), c);
        assert forall|j: int| last_index_of(s, c) < j < s.len() implies s[j] != c by {
            if j < s.len() - 1 {
                assert(s.drop_last()[j] == s[j]);
            }
        }
    }
}

/// Position of the last `c` in `s`, if any.
pub fn last_index_of_exec(s: &Vec<char>, c: char) -> (r: Option<usize>)
    ensures
        match r {
            Some(k) => last_index_of(s@, c) == k as int,
            None => last_index_of(s@, c) == -1,
        },
{
    let mut i: usize = s.len();
    assert(s@.subrange(0, i as int) =~= s@);
    while i > 0
        invariant
            i <= s.len(),
            last_index_of(s@, c) == last_index_of(s@.subrange(0, i as int), c),
        decreases i,
    {
        if s[i - 1] == c {
            return Some(i - 1);
        }
        assert(s@.subrange(0, i as int).drop_last() =~= s@.subrange(0, i - 1));
        i = i - 1;
    }
    None
}


// ---------------------------------------------------------------------------
// Concatenation over sequences
// ---------------------------------------------------------------------------

/// `f(items[0]) + f(items[1]) + ...`.
pub open spec fn concat_map<T>(items: Seq<T>, f: spec_fn(T) -> Seq<char>) -> Seq<char>
    decreases items.len(),
{
    if items.len() == 0 {
        Seq::empty()
    } else {
        concat_map(items.drop_last(), f) + f(items.last())
    }
}

pub proof fn lemma_concat_map_step<T>(items: Seq<T>, f: spec_fn(T) -> Seq<char>, i: int)
    requires
        0 <= i < items.len(),
    ensures
        concat_map(items.subrange(0, i + 1), f) == concat_map(items.subrange(0, i), f) + f(
            items[i],
        ),
{
    assert(items.subrange(0, i + 1).drop_last() =~= items.subrange(0, i));
}

pub proof fn lemma_subrange_full<T>(items: Seq<T>)
    ensures
        items.subrange(0, items.len() as int) == items,
{
    assert(items.subrange(0, items.len() as int) =~= items);
}

/// `items` joined with `sep` between consecutive items.
pub open spec fn join(items: Seq<Seq<char>>, sep: Seq<char>) -> Seq<char>
    decreases items.len(),
{
    if items.len() == 0 {
        Seq::empty()
    } else if items.len() == 1 {
        items[0]
    } else {
        join(items.drop_last(), sep) + sep + items.last()
    }
}

/// The names of `v`.
pub open spec fn names(v: Seq<String>) -> Seq<Seq<char>> {
    v.map_values(|s: String| s@)
}

/// The strings of `v` as character vectors.
pub fn chars_list(v: &[String]) -> (r: Vec<Vec<char>>)
    ensures
        views(r@) == names(v@),
{
    let mut r: Vec<Vec<char>> = Vec::new();
    let mut i: usize = 0;
    assert(views(r@) =~= names(v@).subrange(0, 0));
    while i < v.len()
        invariant
            i <= v.len(),
            views(r@) == names(v@).subrange(0, i as int),
        decreases v.len() - i,
    {
        let c = chars_of(v[i].as_str());
        let ghost o = views(r@);
        r.push(c);
        assert(views(r@) =~= o.push(c@));
        assert(names(v@)[i as int] == v@[i as int]@);
        assert(views(r@) =~= names(v@).subrange(0, i + 1));
        i = i + 1;
    }
    assert(names(v@).subrange(0, v.len() as int) =~= names(v@));
    r
}

/// Joins the given strings with `sep`.
pub fn join_exec(items: &Vec<Vec<char>>, sep: &str) -> (r: Vec<char>)
    ensures
        r@ == join(views(items@), sep@),
{
    let ghost all = views(items@);
    let mut r: Vec<char> = Vec::new();
    let mut i: usize = 0;
    assert(r@ =~= join(all.subrange(0, 0), sep@));
    while i < items.len()
        invariant
            i <= items.len(),
            all == views(items@),
            r@ == join(all.subrange(0, i as int), sep@),
        decreases items.len() - i,
    {
        proof {
            assert(all.subrange(0, i + 1).drop_last() =~= all.subrange(0, i as int));
        }
        if i > 0 {
            push_lit(&mut r, sep);
        } else {
            assert(r@ =~= Seq::<char>::empty());
        }
        push_all(&mut r, &items[i]);
        i = i + 1;
        proof {
            let pre = all.subrange(0, i as int);
            if i == 1 {
                assert(r@ =~= pre[0]);
            }
        }
    }
    proof {
        lemma_subrange_full(all);
    }
    r
}

// ---------------------------------------------------------------------------
// Numbers and padding
// ---------------------------------------------------------------------------

/// The decimal digit character for `d < 10`.
pub open spec fn digit(d: nat) -> char {
    if d == 0 {
        '0'
    } else if d == 1 {
        '1'
    } else if d == 2 {
        '2'
    } else if d == 3 {
        '3'
    } else if d == 4 {
        '4'
    } else if d == 5 {
        '5'
    } else if d == 6 {
        '6'
    } else if d == 7 {
        '7'
    } else if d == 8 {
        '8'
    } else {
        '9'
    }
}

/// Decimal rendering of a natural number.
pub open spec fn dec_nat(n: nat) -> Seq<char>
    decreases n,
{
    if n < 10 {
        seq![digit(n)]
    } else {
        dec_nat(n / 10).push(digit(n % 10))
    }
}

/// Decimal rendering of an integer (`-` sign for negatives).
pub open spec fn dec_int(i: int) -> Seq<char> {
    if i < 0 {
        seq!['-'] + dec_nat((-i) as nat)
    } else {
        dec_nat(i as nat)
    }
}

fn digit_exec(d: u64) -> (c: char)
    requires
        d < 10,
    ensures
        c == digit(d as nat),
{
    if d == 0 {
        '0'
    } else if d == 1 {
        '1'
    } else if d == 2 {
        '2'
    } else if d == 3 {
        '3'
    } else if d == 4 {
        '4'
    } else if d == 5 {
        '5'
    } else if d == 6 {
        '6'
    } else if d == 7 {
        '7'
    } else if d == 8 {
        '8'
    } else {
        '9'
    }
}

/// Decimal digits of `n`.
pub fn fmt_u64(n: u64) -> (r: Vec<char>)
    ensures
        r@ == dec_nat(n as nat),
    decreases n,
{
    if n < 10 {
        let mut v: Vec<char> = Vec::new();
        v.push(digit_exec(n));
        assert(v@ =~= seq![digit(n as nat)]);
        v
    } else {
        let mut v = fmt_u64(n / 10);
        v.push(digit_exec(n % 10));
        v
    }
}

/// Decimal rendering of a signed integer.
pub fn fmt_i64(n: i64) -> (r: Vec<char>)
    ensures
        r@ == dec_int(n as int),
{
    if n < 0 {
        let m: u64 = ((-(n + 1)) as u64) + 1;
        assert(m as int == -(n as int));
        let mut r: Vec<char> = Vec::new();
        r.push('-');
        let d = fmt_u64(m);
        push_all(&mut r, &d);
        r
    } else {
        fmt_u64(n as u64)
    }
}

/// `k` spaces.
pub open spec fn spaces(k: nat) -> Seq<char> {
    Seq::new(k, |i: int| ' ')
}

/// `s` left-aligned in a field of `w` characters (`{:<w}`).
pub open spec fn pad(s: Seq<char>, w: nat) -> Seq<char> {
    if s.len() < w {
        s + spaces((w - s.len()) as nat)
    } else {
        s
    }
}

/// Appends `s` left-aligned in a field of `w` characters.
pub fn push_padded(dst: &mut Vec<char>, s: &str, w: usize)
    ensures
        final(dst)@ == old(dst)@ + pad(s@, w as nat),
{
    let v = chars_of(s);
    push_all(dst, &v);
    let ghost mid = dst@;
    let mut k = v.len();
    while k < w
        invariant
            v.len() <= k,
            v.len() < w ==> k <= w,
            v.len() >= w ==> k == v.len(),
            mid == old(dst)@ + s@,
            v@ == s@,
            dst@ == mid + spaces((k - v.len()) as nat),
        decreases w - k,
    {
        dst.push(' ');
        assert(dst@ =~= mid + spaces((k + 1 - v.len()) as nat));
        k = k + 1;
    }
    if v.len() >= w {
        assert(spaces(0) =~= Seq::<char>::empty());
    }
    assert(dst@ =~= old(dst)@ + pad(s@, w as nat));
}

/// The first `n` characters of `s` (`chars().take(n)`).
pub open spec fn take_chars(s: Seq<char>, n: nat) -> Seq<char> {
    if s.len() <= n {
        s
    } else {
        s.subrange(0, n as int)
    }
}

/// The first `n` characters of `v`.
pub fn take_chars_exec(v: &Vec<char>, n: usize) -> (r: Vec<char>)
    ensures
        r@ == take_chars(v@, n as nat),
{
    if v.len() <= n {
        copy_chars(v)
    } else {
        slice_chars(v, 0, n)
    }
}

// ---------------------------------------------------------------------------
// Lines
// ---------------------------------------------------------------------------

/// A line terminated by `\n` loses a trailing `\r`.
pub open spec fn strip_cr(l: Seq<char>) -> Seq<char> {
    if l.len() > 0 && l.last() == '\r' {
        l.drop_last()
    } else {
        l
    }
}

/// Line splitting (`str::lines`) from position `i`, current line `cur`,
/// lines `out` so far.
pub open spec fn lines_from(s: Seq<char>, i: int, cur: Seq<char>, out: Seq<Seq<char>>) -> Seq<
    Seq<char>,
>
    decreases s.len() - i,
{
    if i >= s.len() {
        if cur.len() > 0 {
            out.push(cur)
        } else {
            out
        }
    } else if s[i] == '\n' {
        lines_from(s, i + 1, Seq::empty(), out.push(strip_cr(cur)))
    } else {
        lines_from(s, i + 1, cur.push(s[i]), out)
    }
}

/// The lines of `s` (`str::lines`): split at `\n` (a `\r` before it is
/// dropped); a final line ending is optional.
pub open spec fn lines(s: Seq<char>) -> Seq<Seq<char>> {
    lines_from(s, 0, Seq::empty(), Seq::empty())
}

/// The lines of a character vector.
pub fn lines_exec(s: &Vec<char>) -> (r: Vec<Vec<char>>)
    ensures
        views(r@) == lines(s@),
{
    let mut out: Vec<Vec<char>> = Vec::new();
    let mut cur: Vec<char> = Vec::new();
    let mut i: usize = 0;
    assert(views(out@) =~= Seq::<Seq<char>>::empty());
    assert(cur@ =~= Seq::<char>::empty());
    while i < s.len()
        invariant
            i <= s.len(),
            lines(s@) == lines_from(s@, i as int, cur@, views(out@)),
        decreases s.len() - i,
    {
        if s[i] == '\n' {
            let t = if cur.len() > 0 && cur[cur.len() - 1] == '\r' {
                slice_chars(&cur, 0, cur.len() - 1)
            } else {
                cur
            };
            assert(t@ == strip_cr(cur@));
            let ghost o = views(out@);
            out.push(t);
            assert(views(out@) =~= o.push(t@));
            cur = Vec::new();
            assert(cur@ =~= Seq::<char>::empty());
        } else {
            cur.push(s[i]);
        }
        i = i + 1;
    }
    if cur.len() > 0 {
        let ghost o = views(out@);
        let t = cur;
        out.push(t);
        assert(views(out@) =~= o.push(t@));
    }
    out
}


/// The text of an optional string.
pub open spec fn opt_str(o: Option<String>) -> Option<Seq<char>> {
    match o {
        Some(s) => Some(s@),
        None => None,
    }
}

/// A copy of an optional string.
pub fn clone_opt(o: &Option<String>) -> (r: Option<String>)
    ensures
        opt_str(r) == opt_str(*o),
{
    match o {
        Some(s) => Some(s.clone()),
        None => None,
    }
}

/// Name for the `Debug` rendering of a string (std `<str as Debug>::fmt`):
/// the text in double quotes with std's escapes applied.
pub uninterp spec fn debug_quoted(s: Seq<char>) -> Seq<char>;

/// `format!("{:?}", s)`. The result is named `debug_quoted`; the escape
/// table itself is not restated.
#[verifier::external_body]
pub(crate) fn debug_str(s: &str) -> (r: String)
    ensures
        r@ == debug_quoted(s@),
{
    format!("{:?}", s)
}

/// `true` / `false`.
pub open spec fn bool_str(b: bool) -> Seq<char> {
    if b {
        "true"@
    } else {
        "false"@
    }
}

/// Appends `true` or `false`.
pub fn push_bool(dst: &mut Vec<char>, b: bool)
    ensures
        final(dst)@ == old(dst)@ + bool_str(b),
{
    if b {
        push_lit(dst, "true");
    } else {
        push_lit(dst, "false");
    }
}

/// Appends the decimal rendering of `n`.
pub fn push_nat(dst: &mut Vec<char>, n: u64)
    ensures
        final(dst)@ == old(dst)@ + dec_nat(n as nat),
{
    let d = fmt_u64(n);
    push_all(dst, &d);
}

} // verus!
