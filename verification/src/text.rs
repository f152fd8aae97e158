//! Character-level text primitives shared by the HTTP helpers: whitespace
//! trimming with Unicode `White_Space`, prefix/suffix tests, and building
//! `String`s from verified character sequences.
use vstd::prelude::*;

verus! {

/// `String::push` appends one character to the string.
pub assume_specification[ String::push ](s: &mut String, ch: char)
    ensures
        final(s)@ == old(s)@.push(ch),
;

/// Unicode `White_Space`, the property that `char::is_whitespace` and
/// `str::trim` use.
pub open spec fn is_ws(c: char) -> bool {
    let u = c as u32;
    ||| 0x09 <= u && u <= 0x0D
    ||| u == 0x20
    ||| u == 0x85
    ||| u == 0xA0
    ||| u == 0x1680
    ||| 0x2000 <= u && u <= 0x200A
    ||| u == 0x2028
    ||| u == 0x2029
    ||| u == 0x202F
    ||| u == 0x205F
    ||| u == 0x3000
}

/// Number of leading whitespace characters.
pub open spec fn leading_ws(s: Seq<char>) -> nat
    decreases s.len(),
{
    if s.len() > 0 && is_ws(s[0]) {
        1 + leading_ws(s.drop_first())
    } else {
        0
    }
}

/// Number of trailing whitespace characters.
pub open spec fn trailing_ws(s: Seq<char>) -> nat
    decreases s.len(),
{
    if s.len() > 0 && is_ws(s.last()) {
        1 + trailing_ws(s.drop_last())
    } else {
        0
    }
}

/// `str::trim_start`.
pub open spec fn trim_start(s: Seq<char>) -> Seq<char> {
    s.skip(leading_ws(s) as int)
}

/// `str::trim_end`.
pub open spec fn trim_end(s: Seq<char>) -> Seq<char> {
    s.take(s.len() - trailing_ws(s))
}

/// `str::trim`.
pub open spec fn trim(s: Seq<char>) -> Seq<char> {
    trim_end(trim_start(s))
}

/// ASCII letters and digits (`u8::is_ascii_alphanumeric` / `char::is_ascii_alphanumeric`).
pub open spec fn is_ascii_alnum_u32(u: u32) -> bool {
    ||| 0x30 <= u && u <= 0x39
    ||| 0x41 <= u && u <= 0x5A
    ||| 0x61 <= u && u <= 0x7A
}

pub open spec fn is_ascii_alnum(c: char) -> bool {
    is_ascii_alnum_u32(c as u32)
}

/// `char::to_ascii_lowercase`.
pub open spec fn ascii_lower(c: char) -> char {
    if 0x41 <= (c as u32) && (c as u32) <= 0x5A {
        ((c as u32) + 32) as char
    } else {
        c
    }
}

/// `str::to_ascii_lowercase`.
pub open spec fn ascii_lower_seq(s: Seq<char>) -> Seq<char> {
    Seq::new(s.len(), |i: int| ascii_lower(s[i]))
}

/// Index of the first occurrence of `c` at or after `from`, or `s.len()`.
pub open spec fn find_from(s: Seq<char>, c: char, from: int) -> int
    decreases s.len() - from,
{
    if from >= s.len() {
        s.len() as int
    } else if s[from] == c {
        from
    } else {
        find_from(s, c, from + 1)
    }
}

/// The first piece of `s.split(c)`: everything before the first `c`.
pub open spec fn before_first(s: Seq<char>, c: char) -> Seq<char> {
    s.take(find_from(s, c, 0))
}

/// `str::split_once(c)`.
pub open spec fn split_once(s: Seq<char>, c: char) -> Option<(Seq<char>, Seq<char>)> {
    let i = find_from(s, c, 0);
    if i < s.len() {
        Some((s.take(i), s.skip(i + 1)))
    } else {
        None
    }
}

/// Index of the last occurrence of a character satisfying `p` strictly
/// before `to`, or `-1`.
pub open spec fn rfind_before(s: Seq<char>, p: spec_fn(char) -> bool, to: int) -> int
    decreases to,
{
    if to <= 0 {
        -1
    } else if p(s[to - 1]) {
        to - 1
    } else {
        rfind_before(s, p, to - 1)
    }
}

pub proof fn lemma_find_from_bounds(s: Seq<char>, c: char, from: int)
    requires
        0 <= from <= s.len(),
    ensures
        from <= find_from(s, c, from) <= s.len(),
        find_from(s, c, from) < s.len() ==> s[find_from(s, c, from)] == c,
        forall|j: int| from <= j < find_from(s, c, from) ==> s[j] != c,
    decreases s.len() - from,
{
    if from < s.len() && s[from] != c {
        lemma_find_from_bounds(s, c, from + 1);
    }
}

pub proof fn lemma_rfind_before_bounds(s: Seq<char>, p: spec_fn(char) -> bool, to: int)
    requires
        0 <= to <= s.len(),
    ensures
        -1 <= rfind_before(s, p, to) < to,
        rfind_before(s, p, to) >= 0 ==> p(s[rfind_before(s, p, to)]),
        forall|j: int| rfind_before(s, p, to) < j < to ==> !p(s[j]),
    decreases to,
{
    if to > 0 && !p(s[to - 1]) {
        lemma_rfind_before_bounds(s, p, to - 1);
    }
}

/// Collects the characters of `s` into a vector.
pub fn chars_of(s: &str) -> (v: Vec<char>)
    ensures
        v@ == s@,
{
    let mut v: Vec<char> = Vec::new();
    for c in it: s.chars()
        invariant
            v@ == it.seq().take(it.index() as int),
    {
        v.push(c);
    }
    v
}

/// Builds a `String` whose characters are `v[from..to]`.
pub fn string_from_range(v: &Vec<char>, from: usize, to: usize) -> (s: String)
    requires
        from <= to <= v@.len(),
    ensures
        s@ == v@.subrange(from as int, to as int),
{
    let mut s = String::new();
    let mut i = from;
    while i < to
        invariant
            from <= i <= to <= v@.len(),
            s@ == v@.subrange(from as int, i as int),
        decreases to - i,
    {
        s.push(v[i]);
        i = i + 1;
        assert(s@ =~= v@.subrange(from as int, i as int));
    }
    s
}

/// Builds a `String` with the characters of `v`.
pub fn string_from_chars(v: &Vec<char>) -> (s: String)
    ensures
        s@ == v@,
{
    let s = string_from_range(v, 0, v.len());
    assert(v@.subrange(0, v@.len() as int) =~= v@);
    s
}

/// Appends the characters of `v` to `out`.
pub fn push_all(out: &mut String, v: &Vec<char>)
    ensures
        final(out)@ == old(out)@ + v@,
{
    let mut i: usize = 0;
    while i < v.len()
        invariant
            i <= v@.len(),
            out@ == old(out)@ + v@.take(i as int),
        decreases v.len() - i,
    {
        out.push(v[i]);
        i = i + 1;
        assert(out@ =~= old(out)@ + v@.take(i as int));
    }
    assert(v@.take(v@.len() as int) =~= v@);
}

/// Appends the characters of `lit` to `out`.
pub fn push_str(out: &mut String, lit: &str)
    ensures
        final(out)@ == old(out)@ + lit@,
{
    let v = chars_of(lit);
    push_all(out, &v);
}

/// `char::is_whitespace`.
pub fn is_ws_exec(c: char) -> (b: bool)
    ensures
        b == is_ws(c),
{
    let u = c as u32;
    (0x09 <= u && u <= 0x0D) || u == 0x20 || u == 0x85 || u == 0xA0 || u == 0x1680 || (0x2000
        <= u && u <= 0x200A) || u == 0x2028 || u == 0x2029 || u == 0x202F || u == 0x205F || u
        == 0x3000
}

pub fn is_ascii_alnum_exec(c: char) -> (b: bool)
    ensures
        b == is_ascii_alnum(c),
{
    let u = c as u32;
    (0x30 <= u && u <= 0x39) || (0x41 <= u && u <= 0x5A) || (0x61 <= u && u <= 0x7A)
}

pub fn ascii_lower_exec(c: char) -> (r: char)
    ensures
        r == ascii_lower(c),
{
    let u = c as u32;
    if 0x41 <= u && u <= 0x5A {
        let l: u32 = u + 32;
        assert(0x61 <= l <= 0x7A);
        char_from_ascii_u32(l)
    } else {
        c
    }
}

/// Converts an ASCII code point to its character.
pub fn char_from_ascii_u32(u: u32) -> (c: char)
    requires
        u < 0x80,
    ensures
        c == u as char,
        c as u32 == u,
{
    let b: u8 = u as u8;
    b as char
}

pub proof fn lemma_leading_ws_step(s: Seq<char>, i: int)
    requires
        0 <= i < s.len(),
        is_ws(s[i]),
    ensures
        leading_ws(s.skip(i)) == 1 + leading_ws(s.skip(i + 1)),
{
    assert(s.skip(i).drop_first() =~= s.skip(i + 1));
}

pub proof fn lemma_leading_ws_stop(s: Seq<char>, i: int)
    requires
        0 <= i <= s.len(),
        i == s.len() || !is_ws(s[i]),
    ensures
        leading_ws(s.skip(i)) == 0,
{
}

pub proof fn lemma_trailing_ws_step(s: Seq<char>, j: int)
    requires
        0 < j <= s.len(),
        is_ws(s[j - 1]),
    ensures
        trailing_ws(s.take(j)) == 1 + trailing_ws(s.take(j - 1)),
{
    assert(s.take(j).drop_last() =~= s.take(j - 1));
}

pub proof fn lemma_leading_ws_le(s: Seq<char>)
    ensures
        leading_ws(s) <= s.len(),
    decreases s.len(),
{
    if s.len() > 0 && is_ws(s[0]) {
        lemma_leading_ws_le(s.drop_first());
    }
}

pub proof fn lemma_trailing_ws_le(s: Seq<char>)
    ensures
        trailing_ws(s) <= s.len(),
    decreases s.len(),
{
    if s.len() > 0 && is_ws(s.last()) {
        lemma_trailing_ws_le(s.drop_last());
    }
}

/// Bounds `[start, end)` of `trim(v)` inside `v`.
pub fn trim_bounds(v: &Vec<char>) -> (r: (usize, usize))
    ensures
        r.0 <= r.1 <= v@.len(),
        r.0 == leading_ws(v@),
        v@.subrange(r.0 as int, r.1 as int) == trim(v@),
{
    let n = v.len();
    let mut i: usize = 0;
    assert(v@.skip(0) =~= v@);
    while i < n && is_ws_exec(v[i])
        invariant
            i <= n == v@.len(),
            leading_ws(v@) == i + leading_ws(v@.skip(i as int)),
        decreases n - i,
    {
        proof {
            lemma_leading_ws_step(v@, i as int);
        }
        i = i + 1;
    }
    proof {
        lemma_leading_ws_stop(v@, i as int);
    }
    let ghost t = v@.skip(i as int);
    let mut j: usize = n;
    assert(t.take(n - i) =~= t);
    while j > i && is_ws_exec(v[j - 1])
        invariant
            i <= j <= n == v@.len(),
            t == v@.skip(i as int),
            trailing_ws(t) == (n - j) + trailing_ws(t.take(j - i)),
        decreases j,
    {
        proof {
            lemma_trailing_ws_step(t, (j - i) as int);
        }
        j = j - 1;
    }
    proof {
        assert(t.take(t.len() as int) =~= t);
        if j > i {
            assert(!is_ws(t.take(j - i).last()));
        }
        assert(trailing_ws(t.take(j - i)) == 0);
        assert(trim(v@) =~= v@.subrange(i as int, j as int));
    }
    (i, j)
}

/// `str::trim`, on characters.
pub fn trim_chars(v: &Vec<char>) -> (r: Vec<char>)
    ensures
        r@ == trim(v@),
{
    let (a, b) = trim_bounds(v);
    slice_chars(v, a, b)
}

/// `v[from..to]` as a new vector.
pub fn slice_chars(v: &Vec<char>, from: usize, to: usize) -> (r: Vec<char>)
    requires
        from <= to <= v@.len(),
    ensures
        r@ == v@.subrange(from as int, to as int),
{
    let mut r: Vec<char> = Vec::new();
    let mut i = from;
    while i < to
        invariant
            from <= i <= to <= v@.len(),
            r@ == v@.subrange(from as int, i as int),
        decreases to - i,
    {
        r.push(v[i]);
        i = i + 1;
        assert(r@ =~= v@.subrange(from as int, i as int));
    }
    r
}

/// Whether `a` and `b` hold the same characters.
pub fn chars_eq(a: &Vec<char>, b: &Vec<char>) -> (r: bool)
    ensures
        r == (a@ == b@),
{
    if a.len() != b.len() {
        return false;
    }
    let mut i: usize = 0;
    while i < a.len()
        invariant
            i <= a@.len() == b@.len(),
            forall|k: int| 0 <= k < i ==> a@[k] == b@[k],
        decreases a.len() - i,
    {
        if a[i] != b[i] {
            return false;
        }
        i = i + 1;
    }
    assert(a@ =~= b@);
    true
}

/// Whether `a` holds exactly the characters of `lit`.
pub fn chars_eq_str(a: &Vec<char>, lit: &str) -> (r: bool)
    ensures
        r == (a@ == lit@),
{
    let b = chars_of(lit);
    chars_eq(a, &b)
}

/// Whether `p` is a prefix of `v` (`str::starts_with`).
pub fn has_prefix(v: &Vec<char>, p: &Vec<char>) -> (r: bool)
    ensures
        r == p@.is_prefix_of(v@),
{
    if p.len() > v.len() {
        return false;
    }
    let mut i: usize = 0;
    while i < p.len()
        invariant
            i <= p@.len() <= v@.len(),
            forall|k: int| 0 <= k < i ==> p@[k] == v@[k],
        decreases p.len() - i,
    {
        if p[i] != v[i] {
            assert(p@[i as int] != v@.take(p@.len() as int)[i as int]);
            return false;
        }
        i = i + 1;
    }
    assert(p@ =~= v@.take(p@.len() as int));
    true
}

pub fn has_prefix_str(v: &Vec<char>, lit: &str) -> (r: bool)
    ensures
        r == lit@.is_prefix_of(v@),
{
    let p = chars_of(lit);
    has_prefix(v, &p)
}

/// Whether `p` is a suffix of `v` (`str::ends_with`).
pub fn has_suffix(v: &Vec<char>, p: &Vec<char>) -> (r: bool)
    ensures
        r == p@.is_suffix_of(v@),
{
    if p.len() > v.len() {
        return false;
    }
    let off = v.len() - p.len();
    let mut i: usize = 0;
    while i < p.len()
        invariant
            i <= p@.len() <= v@.len(),
            off + p@.len() == v@.len(),
            v@.len() == v.len(),
            forall|k: int| 0 <= k < i ==> p@[k] == v@[off + k],
        decreases p.len() - i,
    {
        if p[i] != v[off + i] {
            assert(p@[i as int] != v@.skip(off as int)[i as int]);
            return false;
        }
        i = i + 1;
    }
    assert(p@ =~= v@.skip(off as int));
    true
}

pub fn has_suffix_str(v: &Vec<char>, lit: &str) -> (r: bool)
    ensures
        r == lit@.is_suffix_of(v@),
{
    let p = chars_of(lit);
    has_suffix(v, &p)
}

/// Index of the first `c` in `v`, or `v.len()`.
pub fn find_char(v: &Vec<char>, c: char) -> (r: usize)
    ensures
        r == find_from(v@, c, 0),
        r <= v@.len(),
{
    let mut i: usize = 0;
    while i < v.len() && v[i] != c
        invariant
            i <= v@.len(),
            find_from(v@, c, 0) == find_from(v@, c, i as int),
        decreases v.len() - i,
    {
        i = i + 1;
    }
    proof {
        lemma_find_from_bounds(v@, c, 0);
    }
    i
}

/// Whether `c` occurs in `v`.
pub fn contains_char(v: &Vec<char>, c: char) -> (r: bool)
    ensures
        r == v@.contains(c),
{
    let i = find_char(v, c);
    proof {
        lemma_find_from_bounds(v@, c, 0);
        if i < v@.len() {
            assert(v@[i as int] == c);
        }
    }
    i < v.len()
}

/// `str::to_ascii_lowercase`, on characters.
pub fn ascii_lower_chars(v: &Vec<char>) -> (r: Vec<char>)
    ensures
        r@ == ascii_lower_seq(v@),
{
    let mut r: Vec<char> = Vec::new();
    let mut i: usize = 0;
    while i < v.len()
        invariant
            i <= v@.len(),
            r@ == ascii_lower_seq(v@).take(i as int),
        decreases v.len() - i,
    {
        r.push(ascii_lower_exec(v[i]));
        i = i + 1;
        assert(r@ =~= ascii_lower_seq(v@).take(i as int));
    }
    assert(ascii_lower_seq(v@).take(v@.len() as int) =~= ascii_lower_seq(v@));
    r
}

} // verus!
