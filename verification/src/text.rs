//! Character-level text operations used by every command module: trimming,
//! ASCII case folding, splitting on a separator, joining and decimal
//! rendering of integers. Every operation is specified over the `Seq<char>`
//! view of its strings.

use vstd::prelude::*;
use vstd::string::*;

verus! {

// ── Specifications ───────────────────────────────────────────────────────────

/// The Unicode `White_Space` property, which is what `char::is_whitespace`
/// and `str::trim` test.
pub open spec fn is_ws(c: char) -> bool {
    ||| ('\u{9}' <= c && c <= '\u{d}')
    ||| c == ' '
    ||| c == '\u{85}'
    ||| c == '\u{a0}'
    ||| c == '\u{1680}'
    ||| ('\u{2000}' <= c && c <= '\u{200a}')
    ||| c == '\u{2028}'
    ||| c == '\u{2029}'
    ||| c == '\u{202f}'
    ||| c == '\u{205f}'
    ||| c == '\u{3000}'
}

/// `s` with its leading whitespace removed.
pub open spec fn trim_start(s: Seq<char>) -> Seq<char>
    decreases s.len(),
{
    if s.len() > 0 && is_ws(s[0]) {
        trim_start(s.drop_first())
    } else {
        s
    }
}

/// `s` with its trailing whitespace removed.
pub open spec fn trim_end(s: Seq<char>) -> Seq<char>
    decreases s.len(),
{
    if s.len() > 0 && is_ws(s.last()) {
        trim_end(s.drop_last())
    } else {
        s
    }
}

/// `s` with leading and trailing whitespace removed, as `str::trim` does.
pub open spec fn trim(s: Seq<char>) -> Seq<char> {
    trim_end(trim_start(s))
}

proof fn lemma_trim_start_first(s: Seq<char>)
    ensures
        trim_start(s).len() > 0 ==> !is_ws(trim_start(s)[0]),
        trim_start(s).len() <= s.len(),
    decreases s.len(),
{
    if s.len() > 0 && is_ws(s[0]) {
        lemma_trim_start_first(s.drop_first());
    }
}

proof fn lemma_trim_end_prefix(s: Seq<char>)
    ensures
        trim_end(s).len() <= s.len(),
        trim_end(s) == s.take(trim_end(s).len() as int),
        trim_end(s).len() > 0 ==> !is_ws(trim_end(s).last()),
    decreases s.len(),
{
    if s.len() > 0 && is_ws(s.last()) {
        lemma_trim_end_prefix(s.drop_last());
        let t = trim_end(s.drop_last());
        assert(s.drop_last().take(t.len() as int) =~= s.take(t.len() as int));
    } else {
        assert(s.take(s.len() as int) =~= s);
    }
}

/// A trimmed text begins and ends with a character that is not whitespace.
pub proof fn lemma_trim_ends(s: Seq<char>)
    ensures
        trim(s).len() > 0 ==> !is_ws(trim(s)[0]) && !is_ws(trim(s).last()),
{
    lemma_trim_start_first(s);
    lemma_trim_end_prefix(trim_start(s));
    if trim(s).len() > 0 {
        assert(trim(s)[0] == trim_start(s)[0]);
    }
}

/// A text that neither begins nor ends with whitespace is its own trim.
pub proof fn lemma_trim_clean(s: Seq<char>)
    requires
        s.len() > 0 ==> !is_ws(s[0]) && !is_ws(s.last()),
    ensures
        trim(s) == s,
{
}

/// ASCII lower-casing of one character; every other character is kept.
pub open spec fn lower_char(c: char) -> char {
    if 'A' <= c && c <= 'Z' {
        ((c as u32) + 32) as char
    } else {
        c
    }
}

/// ASCII upper-casing of one character; every other character is kept.
pub open spec fn upper_char(c: char) -> char {
    if 'a' <= c && c <= 'z' {
        ((c as u32) - 32) as char
    } else {
        c
    }
}

/// ASCII lower-casing of a string, as `str::to_ascii_lowercase`.
pub open spec fn ascii_lower(s: Seq<char>) -> Seq<char> {
    s.map_values(|c: char| lower_char(c))
}

/// ASCII upper-casing of a string, as `str::to_ascii_uppercase`.
pub open spec fn ascii_upper(s: Seq<char>) -> Seq<char> {
    s.map_values(|c: char| upper_char(c))
}

/// `str::eq_ignore_ascii_case`.
pub open spec fn eq_ignore_case(a: Seq<char>, b: Seq<char>) -> bool {
    ascii_lower(a) == ascii_lower(b)
}

/// Whether `c` occurs in `s`.
pub open spec fn has_char(s: Seq<char>, c: char) -> bool {
    exists|i: int| 0 <= i < s.len() && s[i] == c
}

/// Index of the first occurrence of `c` in `s`, if any.
pub open spec fn first_index_of(s: Seq<char>, c: char) -> Option<int>
    decreases s.len(),
{
    if s.len() == 0 {
        None
    } else if s[0] == c {
        Some(0)
    } else {
        match first_index_of(s.drop_first(), c) {
            Some(i) => Some(i + 1),
            None => None,
        }
    }
}

/// `str::split_once` on a character: the text before and after its first
/// occurrence.
pub open spec fn split_once(s: Seq<char>, c: char) -> Option<(Seq<char>, Seq<char>)> {
    match first_index_of(s, c) {
        Some(i) => Some((s.take(i), s.skip(i + 1))),
        None => None,
    }
}

/// `str::split` on a character: the pieces between occurrences of `c`, in
/// order (one more piece than there are occurrences).
pub open spec fn split(s: Seq<char>, c: char) -> Seq<Seq<char>>
    decreases s.len(),
{
    match first_index_of(s, c) {
        Some(i) => {
            proof {
                lemma_first_index_of(s, c);
            }
            seq![s.take(i)] + split(s.skip(i + 1), c)
        },
        None => seq![s],
    }
}

/// `first_index_of` names an in-range position holding `c`, with no earlier
/// occurrence; `None` means `c` does not occur.
pub proof fn lemma_first_index_of(s: Seq<char>, c: char)
    ensures
        match first_index_of(s, c) {
            Some(i) => 0 <= i < s.len() && s[i] == c && forall|j: int| 0 <= j < i ==> s[j] != c,
            None => forall|j: int| 0 <= j < s.len() ==> s[j] != c,
        },
    decreases s.len(),
{
    if s.len() > 0 && s[0] != c {
        lemma_first_index_of(s.drop_first(), c);
        match first_index_of(s.drop_first(), c) {
            Some(i) => {
                assert forall|j: int| 0 <= j < i + 1 implies s[j] != c by {
                    if j > 0 {
                        assert(s[j] == s.drop_first()[j - 1]);
                    }
                }
            },
            None => {
                assert forall|j: int| 0 <= j < s.len() implies s[j] != c by {
                    if j > 0 {
                        assert(s[j] == s.drop_first()[j - 1]);
                    }
                }
            },
        }
    }
}

/// The pieces of `list` separated by `sep`, as `[String]::join`.
pub open spec fn join(list: Seq<Seq<char>>, sep: Seq<char>) -> Seq<char>
    decreases list.len(),
{
    if list.len() == 0 {
        seq![]
    } else if list.len() == 1 {
        list[0]
    } else {
        join(list.drop_last(), sep) + sep + list.last()
    }
}

/// Whether `p` is a prefix of `s`.
pub open spec fn starts_with(s: Seq<char>, p: Seq<char>) -> bool {
    p.len() <= s.len() && s.take(p.len() as int) == p
}

/// Whether `p` is a suffix of `s`.
pub open spec fn ends_with(s: Seq<char>, p: Seq<char>) -> bool {
    p.len() <= s.len() && s.skip(s.len() - p.len()) == p
}

/// Whether `p` occurs in `s` starting at index `i`.
pub open spec fn occurs_at(s: Seq<char>, p: Seq<char>, i: int) -> bool {
    0 <= i && i + p.len() <= s.len() && s.subrange(i, i + p.len()) == p
}

/// Whether `p` occurs anywhere in `s`.
pub open spec fn contains(s: Seq<char>, p: Seq<char>) -> bool {
    exists|i: int| occurs_at(s, p, i)
}

/// Decimal digit character for `d < 10`.
pub open spec fn digit_char(d: nat) -> char {
    (('0' as u32) + d) as char
}

/// Decimal rendering of a natural number, without leading zeros.
pub open spec fn decimal_nat(n: nat) -> Seq<char>
    decreases n,
{
    if n < 10 {
        seq![digit_char(n)]
    } else {
        decimal_nat(n / 10).push(digit_char(n % 10))
    }
}

/// Decimal rendering of an integer, as `Display` for the integer types.
pub open spec fn decimal(i: int) -> Seq<char> {
    if i < 0 {
        seq!['-'] + decimal_nat((-i) as nat)
    } else {
        decimal_nat(i as nat)
    }
}

/// Lexicographic order of character sequences by code point, which is the
/// order of `String`'s `Ord` (UTF-8 byte order agrees with code point order).
pub open spec fn lex_lt(a: Seq<char>, b: Seq<char>) -> bool
    decreases a.len(),
{
    if a.len() == 0 {
        b.len() > 0
    } else if b.len() == 0 {
        false
    } else if (a[0] as u32) < (b[0] as u32) {
        true
    } else if (a[0] as u32) > (b[0] as u32) {
        false
    } else {
        lex_lt(a.drop_first(), b.drop_first())
    }
}

/// The views of a list of strings.
pub open spec fn views(v: Seq<String>) -> Seq<Seq<char>> {
    v.map_values(|s: String| s@)
}

/// The views of a list grown by one string.
pub proof fn lemma_views_push(a: Seq<String>, x: String)
    ensures
        views(a.push(x)) == views(a).push(x@),
{
    assert(views(a.push(x)) =~= views(a).push(x@));
}

// ── Trusted std calls ────────────────────────────────────────────────────────

/// Appends one character, through `String::push`: the string grows by
/// exactly that character.
#[verifier::external_body]
pub(crate) fn push_char(s: &mut String, c: char)
    ensures
        final(s)@ == old(s)@.push(c),
{
    s.push(c);
}

// ── Conversions between strings and character vectors ───────────────────────

/// The characters of `s`, in order.
pub fn chars_of(s: &str) -> (v: Vec<char>)
    ensures
        v@ == s@,
{
    let n = s.unicode_len();
    let mut v: Vec<char> = Vec::new();
    for i in 0..n
        invariant
            n == s@.len(),
            v@ == s@.take(i as int),
    {
        v.push(s.get_char(i));
        assert(v@ =~= s@.take((i + 1) as int));
    }
    assert(s@.take(n as int) =~= s@);
    v
}

/// The string made of the characters `v[from..to]`.
pub fn string_of_range(v: &[char], from: usize, to: usize) -> (s: String)
    requires
        from <= to <= v@.len(),
    ensures
        s@ == v@.subrange(from as int, to as int),
{
    let mut s = String::new();
    let mut i = from;
    while i < to
        invariant
            from <= i <= to <= v@.len(),
            s@ == v@.subrange(from as int, i as int),
        decreases to - i,
    {
        push_char(&mut s, v[i]);
        assert(s@ =~= v@.subrange(from as int, (i + 1) as int));
        i = i + 1;
    }
    s
}

/// The string made of all the characters of `v`.
pub fn string_of(v: &[char]) -> (s: String)
    ensures
        s@ == v@,
{
    let s = string_of_range(v, 0, v.len());
    assert(v@.subrange(0, v@.len() as int) =~= v@);
    s
}

/// A copy of `s` as an owned string.
pub fn owned(s: &str) -> (r: String)
    ensures
        r@ == s@,
{
    let v = chars_of(s);
    string_of(&v)
}

/// Appends `t` to `s`.
pub fn push_str(s: &mut String, t: &str)
    ensures
        final(s)@ == old(s)@ + t@,
{
    s.append(t);
}

// ── Character tests ──────────────────────────────────────────────────────────

/// `char::is_whitespace`.
pub fn is_ws_char(c: char) -> (r: bool)
    ensures
        r == is_ws(c),
{
    ('\u{9}' <= c && c <= '\u{d}') || c == ' ' || c == '\u{85}' || c == '\u{a0}' || c
        == '\u{1680}' || ('\u{2000}' <= c && c <= '\u{200a}') || c == '\u{2028}' || c
        == '\u{2029}' || c == '\u{202f}' || c == '\u{205f}' || c == '\u{3000}'
}

/// `char::to_ascii_lowercase`.
pub fn lower(c: char) -> (r: char)
    ensures
        r == lower_char(c),
{
    if 'A' <= c && c <= 'Z' {
        let u: u32 = (c as u32) + 32;
        char_from_u32(u)
    } else {
        c
    }
}

/// `char::to_ascii_uppercase`.
pub fn upper(c: char) -> (r: char)
    ensures
        r == upper_char(c),
{
    if 'a' <= c && c <= 'z' {
        let u: u32 = (c as u32) - 32;
        char_from_u32(u)
    } else {
        c
    }
}

/// The character with an ASCII-range code point.
fn char_from_u32(u: u32) -> (c: char)
    requires
        u < 128,
    ensures
        c == u as char,
{
    let b: u8 = u as u8;
    assert(b as u32 == u);
    b as char
}

// ── Trimming ─────────────────────────────────────────────────────────────────

proof fn lemma_trim_start_step(s: Seq<char>, lo: int, n: int)
    requires
        0 <= lo < n == s.len(),
        is_ws(s[lo]),
    ensures
        trim_start(s.subrange(lo, n)) == trim_start(s.subrange(lo + 1, n)),
{
    assert(s.subrange(lo, n).drop_first() =~= s.subrange(lo + 1, n));
}

proof fn lemma_trim_end_step(s: Seq<char>, lo: int, hi: int)
    requires
        0 <= lo < hi <= s.len(),
        is_ws(s[hi - 1]),
    ensures
        trim_end(s.subrange(lo, hi)) == trim_end(s.subrange(lo, hi - 1)),
{
    assert(s.subrange(lo, hi).drop_last() =~= s.subrange(lo, hi - 1));
}

/// Index where `trim_start(v)` begins inside `v`.
pub fn trim_start_bound(v: &[char]) -> (lo: usize)
    ensures
        lo <= v@.len(),
        trim_start(v@) == v@.subrange(lo as int, v@.len() as int),
{
    let n = v.len();
    let mut lo: usize = 0;
    assert(v@.subrange(0, n as int) =~= v@);
    while lo < n && is_ws_char(v[lo])
        invariant
            lo <= n == v@.len(),
            trim_start(v@) == trim_start(v@.subrange(lo as int, n as int)),
        decreases n - lo,
    {
        proof {
            lemma_trim_start_step(v@, lo as int, n as int);
        }
        lo = lo + 1;
    }
    lo
}

/// `str::trim_start` on a character vector.
pub fn trim_start_chars(v: &[char]) -> (r: Vec<char>)
    ensures
        r@ == trim_start(v@),
{
    let lo = trim_start_bound(v);
    slice_range(v, lo, v.len())
}

/// Bounds `[lo, hi)` of `trim(v)` inside `v`.
pub fn trim_bounds(v: &[char]) -> (r: (usize, usize))
    ensures
        r.0 <= r.1 <= v@.len(),
        trim(v@) == v@.subrange(r.0 as int, r.1 as int),
{
    let n = v.len();
    let lo = trim_start_bound(v);
    let mut hi: usize = n;
    while hi > lo && is_ws_char(v[hi - 1])
        invariant
            lo <= hi <= n == v@.len(),
            trim(v@) == trim_end(v@.subrange(lo as int, hi as int)),
        decreases hi,
    {
        proof {
            lemma_trim_end_step(v@, lo as int, hi as int);
        }
        hi = hi - 1;
    }
    (lo, hi)
}

/// `str::trim`, returning an owned string.
pub fn trim_str(s: &str) -> (r: String)
    ensures
        r@ == trim(s@),
{
    let v = chars_of(s);
    let (lo, hi) = trim_bounds(&v);
    string_of_range(&v, lo, hi)
}

/// `str::trim`, borrowing from the input.
pub fn trim_ref<'a>(s: &'a str) -> (r: &'a str)
    ensures
        r@ == trim(s@),
{
    let v = chars_of(s);
    let (lo, hi) = trim_bounds(&v);
    s.substring_char(lo, hi)
}

/// `str::trim` on a character vector.
pub fn trim_chars(v: &[char]) -> (r: Vec<char>)
    ensures
        r@ == trim(v@),
{
    let (lo, hi) = trim_bounds(v);
    slice_range(v, lo, hi)
}

/// `v[from..to]` as a vector.
pub fn slice_range(v: &[char], from: usize, to: usize) -> (r: Vec<char>)
    requires
        from <= to <= v@.len(),
    ensures
        r@ == v@.subrange(from as int, to as int),
{
    let mut r: Vec<char> = Vec::new();
    let mut i = from;
    while i < to
        invariant
            from <= i <= to <= v@.len(),
            r@ == v@.subrange(from as int, i as int),
        decreases to - i,
    {
        r.push(v[i]);
        assert(r@ =~= v@.subrange(from as int, (i + 1) as int));
        i = i + 1;
    }
    r
}

// ── Comparison ───────────────────────────────────────────────────────────────

/// Character-wise equality of two vectors.
pub fn chars_eq(a: &[char], b: &[char]) -> (r: bool)
    ensures
        r == (a@ == b@),
{
    if a.len() != b.len() {
        return false;
    }
    let n = a.len();
    for i in 0..n
        invariant
            n == a@.len() == b@.len(),
            forall|j: int| 0 <= j < i ==> a@[j] == b@[j],
    {
        if a[i] != b[i] {
            return false;
        }
    }
    assert(a@ =~= b@);
    true
}

/// `a < b` for strings.
pub fn str_lt(a: &str, b: &str) -> (r: bool)
    ensures
        r == lex_lt(a@, b@),
{
    let av = chars_of(a);
    let bv = chars_of(b);
    let n = av.len();
    let m = bv.len();
    let mut i: usize = 0;
    assert(av@.skip(0) =~= av@);
    assert(bv@.skip(0) =~= bv@);
    while i < n && i < m
        invariant
            i <= n == av@.len(),
            m == bv@.len(),
            i <= m,
            lex_lt(a@, b@) == lex_lt(av@.skip(i as int), bv@.skip(i as int)),
        decreases n - i,
    {
        let x = av[i];
        let y = bv[i];
        assert(av@.skip(i as int)[0] == x);
        assert(bv@.skip(i as int)[0] == y);
        if (x as u32) < (y as u32) {
            return true;
        }
        if (x as u32) > (y as u32) {
            return false;
        }
        assert(av@.skip(i as int).drop_first() =~= av@.skip(i + 1));
        assert(bv@.skip(i as int).drop_first() =~= bv@.skip(i + 1));
        i = i + 1;
    }
    i == n && i < m
}

/// Equality of a character vector with a string.
pub fn chars_eq_str(a: &[char], b: &str) -> (r: bool)
    ensures
        r == (a@ == b@),
{
    let bv = chars_of(b);
    chars_eq(a, &bv)
}

/// `str::eq_ignore_ascii_case` on character vectors.
pub fn eq_ignore_case_chars(a: &[char], b: &[char]) -> (r: bool)
    ensures
        r == eq_ignore_case(a@, b@),
{
    if a.len() != b.len() {
        assert(ascii_lower(a@).len() != ascii_lower(b@).len());
        return false;
    }
    let n = a.len();
    for i in 0..n
        invariant
            n == a@.len() == b@.len(),
            forall|j: int| 0 <= j < i ==> lower_char(a@[j]) == lower_char(b@[j]),
    {
        if lower(a[i]) != lower(b[i]) {
            assert(ascii_lower(a@)[i as int] != ascii_lower(b@)[i as int]);
            return false;
        }
    }
    assert(ascii_lower(a@) =~= ascii_lower(b@));
    true
}

/// `str::eq_ignore_ascii_case`.
pub fn eq_ignore_case_str(a: &str, b: &str) -> (r: bool)
    ensures
        r == eq_ignore_case(a@, b@),
{
    let av = chars_of(a);
    let bv = chars_of(b);
    eq_ignore_case_chars(&av, &bv)
}

/// `str::to_ascii_uppercase` on a character vector.
pub fn upper_chars(v: &[char]) -> (r: Vec<char>)
    ensures
        r@ == ascii_upper(v@),
{
    let mut r: Vec<char> = Vec::new();
    let n = v.len();
    for i in 0..n
        invariant
            n == v@.len(),
            r@ == ascii_upper(v@.take(i as int)),
    {
        r.push(upper(v[i]));
        assert(r@ =~= ascii_upper(v@.take((i + 1) as int)));
    }
    assert(v@.take(n as int) =~= v@);
    r
}

/// `str::to_ascii_lowercase` on a character vector.
pub fn lower_chars(v: &[char]) -> (r: Vec<char>)
    ensures
        r@ == ascii_lower(v@),
{
    let mut r: Vec<char> = Vec::new();
    let n = v.len();
    for i in 0..n
        invariant
            n == v@.len(),
            r@ == ascii_lower(v@.take(i as int)),
    {
        r.push(lower(v[i]));
        assert(r@ =~= ascii_lower(v@.take((i + 1) as int)));
    }
    assert(v@.take(n as int) =~= v@);
    r
}

// ── Searching and splitting ──────────────────────────────────────────────────

/// Position of the first `c` in `v`.
pub fn find_char(v: &[char], c: char) -> (r: Option<usize>)
    ensures
        match r {
            Some(i) => first_index_of(v@, c) == Some(i as int) && i < v@.len(),
            None => first_index_of(v@, c) is None,
        },
{
    let n = v.len();
    proof {
        lemma_first_index_of(v@, c);
    }
    for i in 0..n
        invariant
            n == v@.len(),
            forall|j: int| 0 <= j < i ==> v@[j] != c,
            match first_index_of(v@, c) {
                Some(k) => 0 <= k < v@.len() && v@[k] == c && forall|j: int|
                    0 <= j < k ==> v@[j] != c,
                None => forall|j: int| 0 <= j < v@.len() ==> v@[j] != c,
            },
    {
        if v[i] == c {
            return Some(i);
        }
    }
    None
}

/// Whether `c` occurs in `v`.
pub fn has_char_exec(v: &[char], c: char) -> (r: bool)
    ensures
        r == has_char(v@, c),
{
    proof {
        lemma_first_index_of(v@, c);
    }
    find_char(v, c).is_some()
}

/// `str::split_once` on a character.
pub fn split_once_chars(v: &[char], c: char) -> (r: Option<(Vec<char>, Vec<char>)>)
    ensures
        match r {
            Some((a, b)) => split_once(v@, c) == Some((a@, b@)),
            None => split_once(v@, c) is None,
        },
{
    proof {
        lemma_first_index_of(v@, c);
    }
    match find_char(v, c) {
        Some(i) => {
            let n = v.len();
            assert(i < n);
            let a = slice_range(v, 0, i);
            let b = slice_range(v, i + 1, n);
            assert(a@ =~= v@.take(i as int));
            assert(b@ =~= v@.skip(i + 1));
            Some((a, b))
        },
        None => None,
    }
}

proof fn lemma_split_unfold(s: Seq<char>, c: char, i: int)
    requires
        first_index_of(s, c) == Some(i),
    ensures
        split(s, c) == seq![s.take(i)] + split(s.skip(i + 1), c),
{
}

/// `str::split` on a character: every piece, in order.
pub fn split_chars(v: &[char], c: char) -> (r: Vec<Vec<char>>)
    ensures
        r@.map_values(|p: Vec<char>| p@) == split(v@, c),
{
    let n = v.len();
    let mut pieces: Vec<Vec<char>> = Vec::new();
    let mut start: usize = 0;
    let mut cur: Vec<char> = Vec::new();
    let mut i: usize = 0;
    assert(v@.subrange(0, n as int) =~= v@);
    assert(pieces@.map_values(|p: Vec<char>| p@) =~= Seq::<Seq<char>>::empty());
    // `cur` holds v[start..i]; no separator occurs in it.
    while i < n
        invariant
            start <= i <= n == v@.len(),
            cur@ == v@.subrange(start as int, i as int),
            forall|j: int| start <= j < i ==> v@[j] != c,
            pieces@.map_values(|p: Vec<char>| p@) + split(v@.subrange(start as int, n as int), c)
                == split(v@, c),
        decreases n - i,
    {
        if v[i] == c {
            proof {
                let rest = v@.subrange(start as int, n as int);
                let k = (i - start) as int;
                lemma_first_index_of(rest, c);
                lemma_first_index_at(rest, c, k);
                lemma_split_unfold(rest, c, k);
                assert(rest.take(k) =~= cur@);
                assert(rest.skip(k + 1) =~= v@.subrange(i + 1, n as int));
                assert((pieces@.push(cur)).map_values(|p: Vec<char>| p@) =~= pieces@.map_values(
                    |p: Vec<char>| p@,
                ).push(cur@));
            }
            pieces.push(cur);
            cur = Vec::new();
            start = i + 1;
            assert(cur@ =~= v@.subrange(start as int, start as int));
        } else {
            cur.push(v[i]);
            assert(cur@ =~= v@.subrange(start as int, (i + 1) as int));
        }
        i = i + 1;
    }
    proof {
        let rest = v@.subrange(start as int, n as int);
        lemma_no_index(rest, c);
        assert(rest =~= cur@);
        assert((pieces@.push(cur)).map_values(|p: Vec<char>| p@) =~= pieces@.map_values(
            |p: Vec<char>| p@,
        ).push(cur@));
        assert(split(rest, c) == seq![rest]);
        assert(pieces@.map_values(|p: Vec<char>| p@).push(cur@) =~= pieces@.map_values(
            |p: Vec<char>| p@,
        ) + seq![rest]);
    }
    pieces.push(cur);
    pieces
}

proof fn lemma_first_index_at(s: Seq<char>, c: char, k: int)
    requires
        0 <= k < s.len(),
        s[k] == c,
        forall|j: int| 0 <= j < k ==> s[j] != c,
    ensures
        first_index_of(s, c) == Some(k),
{
    lemma_first_index_of(s, c);
}

proof fn lemma_no_index(s: Seq<char>, c: char)
    requires
        forall|j: int| 0 <= j < s.len() ==> s[j] != c,
    ensures
        first_index_of(s, c) is None,
{
    lemma_first_index_of(s, c);
}

// ── Joining and rendering ────────────────────────────────────────────────────

/// `[String]::join`.
pub fn join_strings(list: &[String], sep: &str) -> (r: String)
    ensures
        r@ == join(views(list@), sep@),
{
    let mut r = String::new();
    let n = list.len();
    for i in 0..n
        invariant
            n == list@.len(),
            r@ == join(views(list@.take(i as int)), sep@),
    {
        proof {
            let vs = views(list@.take((i + 1) as int));
            assert(vs.drop_last() =~= views(list@.take(i as int)));
            assert(vs.last() == list@[i as int]@);
        }
        if i > 0 {
            r.append(sep);
        }
        r.append(list[i].as_str());
        proof {
            if i == 0 {
                assert(views(list@.take(1)) =~= seq![list@[0]@]);
                assert(r@ =~= list@[0]@);
            }
        }
    }
    assert(list@.take(n as int) =~= list@);
    r
}

/// Decimal rendering of an unsigned integer.
pub fn decimal_u64(n: u64) -> (r: String)
    ensures
        r@ == decimal_nat(n as nat),
    decreases n,
{
    if n < 10 {
        let mut r = String::new();
        push_char(&mut r, digit(n));
        assert(r@ =~= seq![digit_char(n as nat)]);
        r
    } else {
        let mut r = decimal_u64(n / 10);
        push_char(&mut r, digit(n % 10));
        r
    }
}

/// The decimal digit character of `d < 10`.
fn digit(d: u64) -> (c: char)
    requires
        d < 10,
    ensures
        c == digit_char(d as nat),
{
    let u: u32 = 48 + d as u32;
    char_from_u32(u)
}

/// Decimal rendering of a signed integer.
pub fn decimal_i64(i: i64) -> (r: String)
    ensures
        r@ == decimal(i as int),
{
    if i < 0 {
        let m: u64 = if i == i64::MIN {
            9223372036854775808u64
        } else {
            (-i) as u64
        };
        let mut r = String::new();
        push_char(&mut r, '-');
        let d = decimal_u64(m);
        r.append(d.as_str());
        assert(r@ =~= seq!['-'] + decimal_nat((-i) as nat));
        r
    } else {
        decimal_u64(i as u64)
    }
}

/// Decimal rendering of a `usize`.
pub fn decimal_usize(n: usize) -> (r: String)
    ensures
        r@ == decimal_nat(n as nat),
{
    decimal_u64(n as u64)
}


// ── Optional fields ──────────────────────────────────────────────────────────

/// The view of an optional string field.
pub open spec fn field_view(value: Option<String>) -> Option<Seq<char>> {
    match value {
        Some(s) => Some(s@),
        None => None,
    }
}

/// `value.as_deref().unwrap_or("-")`, on views: the text, or `-` when absent
/// (an empty text stays empty).
pub open spec fn value_or_dash(value: Option<Seq<char>>) -> Seq<char> {
    match value {
        Some(s) => s,
        None => "-"@,
    }
}

/// The text of an optional field, or `-` when it is absent.
pub fn field_or_dash(value: &Option<String>) -> (r: &str)
    ensures
        r@ == value_or_dash(field_view(*value)),
{
    match value {
        Some(s) => s.as_str(),
        None => "-",
    }
}

/// The text, or `-` when there is none.
pub fn text_or_dash<'a>(value: Option<&'a str>) -> (r: &'a str)
    ensures
        r@ == value_or_dash(
            match value {
                Some(s) => Some(s@),
                None => None,
            },
        ),
{
    match value {
        Some(s) => s,
        None => "-",
    }
}

// ── Unsigned decimal numbers ────────────────────────────────────────────────

/// The digits of an unsigned decimal text: the text without one leading `+`.
pub open spec fn unsigned_digits(s: Seq<char>) -> Seq<char> {
    if s.len() > 0 && s[0] == '+' {
        s.drop_first()
    } else {
        s
    }
}

/// What `u64::from_str` accepts, leaving the range aside: an optional `+`
/// and at least one ASCII digit, nothing else.
pub open spec fn is_unsigned_text(s: Seq<char>) -> bool {
    let d = unsigned_digits(s);
    d.len() > 0 && forall|i: int| 0 <= i < d.len() ==> crate::timestamp::is_digit(#[trigger] d[i])
}

/// `u64::from_str` on views: the value of an unsigned decimal text that fits
/// in a `u64`, `None` for anything else.
pub open spec fn spec_parse_u64(s: Seq<char>) -> Option<nat> {
    if is_unsigned_text(s) && crate::timestamp::digits_value(unsigned_digits(s)) <= u64::MAX {
        Some(crate::timestamp::digits_value(unsigned_digits(s)))
    } else {
        None
    }
}

proof fn lemma_digits_value_grows(s: Seq<char>, i: int, j: int)
    requires
        0 <= i <= j <= s.len(),
        forall|k: int| 0 <= k < s.len() ==> crate::timestamp::is_digit(#[trigger] s[k]),
    ensures
        crate::timestamp::digits_value(s.take(i)) <= crate::timestamp::digits_value(s.take(j)),
    decreases j - i,
{
    if i < j {
        lemma_digits_value_grows(s, i, j - 1);
        assert(s.take(j).drop_last() =~= s.take(j - 1));
    }
}

/// `u64::from_str`: an optional `+` followed by decimal digits, within range.
pub fn parse_u64(s: &str) -> (r: Option<u64>)
    ensures
        match spec_parse_u64(s@) {
            Some(n) => r == Some(n as u64),
            None => r is None,
        },
{
    let v = chars_of(s);
    let start: usize = if v.len() > 0 && v[0] == '+' { 1 } else { 0 };
    let ghost d = unsigned_digits(s@);
    assert(d =~= v@.skip(start as int));
    if start >= v.len() {
        return None;
    }
    let mut value: u64 = 0;
    let mut i: usize = start;
    while i < v.len()
        invariant
            start <= i <= v@.len(),
            v@ == s@,
            d == unsigned_digits(s@),
            d == v@.skip(start as int),
            forall|k: int| 0 <= k < i - start ==> crate::timestamp::is_digit(#[trigger] d[k]),
            value == crate::timestamp::digits_value(d.take(i - start)),
        decreases v@.len() - i,
    {
        let c = v[i];
        if !('0' <= c && c <= '9') {
            assert(d[i - start] == c);
            return None;
        }
        let digit = (c as u32 - '0' as u32) as u64;
        assert(d.take(i - start + 1).drop_last() =~= d.take(i - start));
        assert(d.take(i - start + 1).last() == c);
        match value.checked_mul(10) {
            Some(m) => match m.checked_add(digit) {
                Some(next) => {
                    value = next;
                },
                None => {
                    proof {
                        if is_unsigned_text(s@) {
                            lemma_digits_value_grows(d, i - start + 1, d.len() as int);
                            assert(d.take(d.len() as int) =~= d);
                        }
                    }
                    return None;
                },
            },
            None => {
                proof {
                    if is_unsigned_text(s@) {
                        lemma_digits_value_grows(d, i - start + 1, d.len() as int);
                        assert(d.take(d.len() as int) =~= d);
                    }
                }
                return None;
            },
        }
        i = i + 1;
    }
    assert(d.take(d.len() as int) =~= d);
    Some(value)
}

/// `s` without the prefix `p` when it starts with it, else `s`.
pub open spec fn strip_prefix_or_keep(s: Seq<char>, p: Seq<char>) -> Seq<char> {
    if starts_with(s, p) {
        s.skip(p.len() as int)
    } else {
        s
    }
}

/// An enum name as shown: without the prefix `p`, or `-` when absent.
pub open spec fn stripped_or_dash(value: Option<Seq<char>>, p: Seq<char>) -> Seq<char> {
    match value {
        Some(s) => strip_prefix_or_keep(s, p),
        None => "-"@,
    }
}

/// `value.as_deref().map(|s| s.strip_prefix(prefix).unwrap_or(s))`, owned,
/// or `-` when absent.
pub fn strip_prefix_or_dash(value: &Option<String>, prefix: &str) -> (r: String)
    ensures
        r@ == stripped_or_dash(field_view(*value), prefix@),
{
    match value {
        Some(c) => {
            let v = chars_of(c.as_str());
            let p = chars_of(prefix);
            if p.len() <= v.len() {
                let head = slice_range(&v, 0, p.len());
                assert(head@ =~= v@.take(p@.len() as int));
                if chars_eq(&head, &p) {
                    let rest = slice_range(&v, p.len(), v.len());
                    assert(rest@ =~= v@.skip(p@.len() as int));
                    return string_of(&rest);
                }
            }
            owned(c.as_str())
        },
        None => owned("-"),
    }
}

// ── Substrings ───────────────────────────────────────────────────────────────

/// Position of the first occurrence of `p` in `v`.
pub fn find_sub(v: &[char], p: &[char]) -> (r: Option<usize>)
    ensures
        match r {
            Some(i) => occurs_at(v@, p@, i as int) && forall|j: int|
                0 <= j < i ==> !occurs_at(v@, p@, j),
            None => !contains(v@, p@),
        },
{
    if p.len() > v.len() {
        assert forall|j: int| !occurs_at(v@, p@, j) by {}
        return None;
    }
    let n = v.len();
    let last = n - p.len();
    let mut i: usize = 0;
    loop
        invariant
            n == v@.len(),
            last == v@.len() - p@.len(),
            p@.len() <= v@.len(),
            i <= last,
            forall|j: int| 0 <= j < i ==> !occurs_at(v@, p@, j),
        decreases last - i,
    {
        let end = i + p.len();
        let piece = slice_range(v, i, end);
        assert(piece@ =~= v@.subrange(i as int, i + p@.len()));
        if chars_eq(&piece, p) {
            return Some(i);
        }
        if i == last {
            assert forall|j: int| !occurs_at(v@, p@, j) by {
                if 0 <= j && j + p@.len() <= v@.len() {
                    assert(j <= i);
                }
            }
            return None;
        }
        i = i + 1;
    }
}

/// Whether `p` occurs in `v`.
pub fn contains_exec(v: &[char], p: &str) -> (r: bool)
    ensures
        r == contains(v@, p@),
{
    let pv = chars_of(p);
    match find_sub(v, &pv) {
        Some(i) => {
            assert(occurs_at(v@, pv@, i as int));
            true
        },
        None => false,
    }
}

/// `s` without every trailing `c` (`str::trim_end_matches` on a character).
pub open spec fn trim_end_char(s: Seq<char>, c: char) -> Seq<char>
    decreases s.len(),
{
    if s.len() > 0 && s.last() == c {
        trim_end_char(s.drop_last(), c)
    } else {
        s
    }
}

/// `str::trim_end_matches` on a character.
pub fn trim_end_char_exec(v: &[char], c: char) -> (r: Vec<char>)
    ensures
        r@ == trim_end_char(v@, c),
{
    let mut hi = v.len();
    assert(v@.take(hi as int) =~= v@);
    while hi > 0 && v[hi - 1] == c
        invariant
            hi <= v@.len(),
            trim_end_char(v@, c) == trim_end_char(v@.take(hi as int), c),
        decreases hi,
    {
        assert(v@.take(hi as int).drop_last() =~= v@.take(hi - 1));
        hi = hi - 1;
    }
    let r = slice_range(v, 0, hi);
    assert(r@ =~= v@.take(hi as int));
    r
}

// ── Case mapping (std) ───────────────────────────────────────────────────────

/// What `str::to_uppercase` makes of a string (full Unicode case mapping).
pub uninterp spec fn spec_to_uppercase(s: Seq<char>) -> Seq<char>;

/// What `str::to_lowercase` makes of a string (full Unicode case mapping).
pub uninterp spec fn spec_to_lowercase(s: Seq<char>) -> Seq<char>;

/// What `str::to_uppercase` makes of `s`: the ASCII upper-casing when `s`
/// is ASCII, as the std documentation says, and the full Unicode mapping
/// otherwise.
pub open spec fn uppercased(s: Seq<char>) -> Seq<char> {
    if vstd::utf8::is_ascii_chars(s) {
        ascii_upper(s)
    } else {
        spec_to_uppercase(s)
    }
}

/// `str::to_uppercase`. Its result is a function of the input, named
/// `spec_to_uppercase`; for ASCII input it is the ASCII upper-casing, as the
/// std documentation says.
#[verifier::external_body]
pub fn to_uppercase(s: &str) -> (r: String)
    ensures
        r@ == spec_to_uppercase(s@),
        vstd::utf8::is_ascii_chars(s@) ==> r@ == ascii_upper(s@),
{
    s.to_uppercase()
}

/// `str::to_lowercase`. Its result is a function of the input, named
/// `spec_to_lowercase`; for ASCII input it is the ASCII lower-casing, as the
/// std documentation says.
#[verifier::external_body]
pub fn to_lowercase(s: &str) -> (r: String)
    ensures
        r@ == spec_to_lowercase(s@),
        vstd::utf8::is_ascii_chars(s@) ==> r@ == ascii_lower(s@),
{
    s.to_lowercase()
}

// ── Sorted lists of strings ─────────────────────────────────────────────────

/// Whether `names` is in strictly ascending order.
pub open spec fn strictly_sorted(names: Seq<Seq<char>>) -> bool {
    forall|i: int, j: int| 0 <= i < j < names.len() ==> lex_lt(names[i], names[j])
}

pub proof fn lemma_lex_lt_trans(a: Seq<char>, b: Seq<char>, c: Seq<char>)
    requires
        lex_lt(a, b),
        lex_lt(b, c),
    ensures
        lex_lt(a, c),
    decreases a.len(),
{
    if a.len() > 0 && b.len() > 0 && c.len() > 0 && (a[0] as u32) == (b[0] as u32) && (b[0] as u32)
        == (c[0] as u32) {
        lemma_lex_lt_trans(a.drop_first(), b.drop_first(), c.drop_first());
    }
}

pub proof fn lemma_lex_lt_irrefl(a: Seq<char>)
    ensures
        !lex_lt(a, a),
    decreases a.len(),
{
    if a.len() > 0 {
        lemma_lex_lt_irrefl(a.drop_first());
    }
}

pub proof fn lemma_lex_lt_total(a: Seq<char>, b: Seq<char>)
    ensures
        a == b || lex_lt(a, b) || lex_lt(b, a),
    decreases a.len(),
{
    if a.len() > 0 && b.len() > 0 && (a[0] as u32) == (b[0] as u32) {
        lemma_lex_lt_total(a.drop_first(), b.drop_first());
        if a.drop_first() == b.drop_first() {
            vstd::utf8::char_u32_cast(a[0], a[0] as u32);
            vstd::utf8::char_u32_cast(b[0], b[0] as u32);
            assert(a[0] == b[0]);
            assert(a =~= seq![a[0]] + a.drop_first());
            assert(b =~= seq![b[0]] + b.drop_first());
        }
    } else if a.len() == 0 && b.len() == 0 {
        assert(a =~= b);
    }
}

/// Inserts `name` into a strictly ascending list, unless it is there.
pub fn insert_sorted(names: &mut Vec<String>, name: &str)
    requires
        strictly_sorted(views(old(names)@)),
    ensures
        strictly_sorted(views(final(names)@)),
        views(final(names)@).to_set() == views(old(names)@).to_set().insert(name@),
{
    let n = names.len();
    let mut i: usize = 0;
    while i < n && str_lt(names[i].as_str(), name)
        invariant
            n == names@.len(),
            i <= n,
            forall|k: int| 0 <= k < i ==> lex_lt(#[trigger] names@[k]@, name@),
        decreases n - i,
    {
        i = i + 1;
    }
    let ghost before = views(names@);
    if i < n && chars_eq_str(&chars_of(names[i].as_str()), name) {
        assert(before.to_set() =~= before.to_set().insert(name@)) by {
            assert(before[i as int] == name@);
        }
        return;
    }
    proof {
        if i < n {
            lemma_lex_lt_total(names@[i as int]@, name@);
        }
    }
    names.insert(i, owned(name));
    let ghost after = views(names@);
    assert(after =~= before.insert(i as int, name@));
    assert forall|a: int, b: int| 0 <= a < b < after.len() implies lex_lt(
        after[a],
        after[b],
    ) by {
        if b < i {
            assert(after[a] == before[a] && after[b] == before[b]);
        } else if b == i {
            assert(after[a] == before[a]);
        } else if a == i {
            assert(after[b] == before[b - 1]);
            if b - 1 > i {
                lemma_lex_lt_trans(name@, before[i as int], before[b - 1]);
            }
        } else if a < i {
            assert(after[a] == before[a] && after[b] == before[b - 1]);
        } else {
            assert(after[a] == before[a - 1] && after[b] == before[b - 1]);
        }
    }
    assert(after.to_set() =~= before.to_set().insert(name@)) by {
        assert forall|x: Seq<char>| #[trigger] after.to_set().contains(x) <==> before.to_set().insert(
            name@,
        ).contains(x) by {
            if after.to_set().contains(x) {
                let k = choose|k: int| 0 <= k < after.len() && after[k] == x;
                if k < i {
                    assert(before[k] == x);
                } else if k > i {
                    assert(before[k - 1] == x);
                }
            }
            if before.to_set().contains(x) {
                let k = choose|k: int| 0 <= k < before.len() && before[k] == x;
                if k < i {
                    assert(after[k] == x);
                } else {
                    assert(after[k + 1] == x);
                }
            }
            if x == name@ {
                assert(after[i as int] == x);
            }
        }
    }
}

} // verus!
