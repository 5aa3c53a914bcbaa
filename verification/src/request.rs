//! Description of an HTTP request to the Coralogix API: the method, the path
//! and the query pairs. The command modules decide these; sending them is
//! left to the HTTP client.

use vstd::prelude::*;
use vstd::utf8::{encode_scalar, encode_utf8};

verus! {

#[derive(Debug, Clone, Copy, PartialEq, Eq)]
pub enum Method {
    Get,
    Post,
    Put,
    Delete,
}

/// One request: method, path and query pairs, in order.
#[derive(Debug)]
pub struct ApiRequest {
    pub method: Method,
    pub path: String,
    pub query: Vec<(String, String)>,
}

impl ApiRequest {
    /// A request to `base` followed by `suffix`, without query pairs.
    pub fn new(method: Method, base: &str, suffix: &str) -> (r: Self)
        ensures
            r.method == method,
            r.path@ == base@ + suffix@,
            r.query@.len() == 0,
    {
        let mut path = crate::text::owned(base);
        path.append(suffix);
        ApiRequest { method, path, query: Vec::new() }
    }

    /// A request to `path`, without query pairs.
    pub fn at(method: Method, path: &str) -> (r: Self)
        ensures
            r.method == method,
            r.path@ == path@,
            r.query@.len() == 0,
    {
        ApiRequest { method, path: crate::text::owned(path), query: Vec::new() }
    }

    /// A request to `base`, then `/` and `id` as given, without query pairs.
    pub fn with_id(method: Method, base: &str, id: &str) -> (r: Self)
        ensures
            r.method == method,
            r.path@ == base@ + "/"@ + id@,
            r.query@.len() == 0,
    {
        let mut path = crate::text::owned(base);
        path.append("/");
        path.append(id);
        ApiRequest { method, path, query: Vec::new() }
    }

    /// A request to `base`, then `/`, the segment `segment` as given, then
    /// `suffix`, without query pairs.
    pub fn with_segment(method: Method, base: &str, segment: &str, suffix: &str) -> (r: Self)
        ensures
            r.method == method,
            r.path@ == base@ + "/"@ + segment@ + suffix@,
            r.query@.len() == 0,
    {
        let mut path = crate::text::owned(base);
        path.append("/");
        path.append(segment);
        path.append(suffix);
        ApiRequest { method, path, query: Vec::new() }
    }

    /// Appends one query pair.
    pub fn push_query(&mut self, key: &str, value: &str)
        ensures
            final(self).method == old(self).method,
            final(self).path == old(self).path,
            final(self).query@.len() == old(self).query@.len() + 1,
            forall|i: int|
                0 <= i < old(self).query@.len() ==> final(self).query@[i] == old(self).query@[i],
            final(self).query@.last().0@ == key@,
            final(self).query@.last().1@ == value@,
    {
        self.query.push((crate::text::owned(key), crate::text::owned(value)));
    }
}

// ── Percent-encoding of a path segment ───────────────────────────────────────

/// RFC 3986 unreserved bytes: ASCII letters and digits, `-`, `_`, `.`, `~`.
pub open spec fn is_unreserved(b: u8) -> bool {
    ||| (48 <= b && b <= 57)
    ||| (65 <= b && b <= 90)
    ||| (97 <= b && b <= 122)
    ||| b == 45
    ||| b == 95
    ||| b == 46
    ||| b == 126
}

/// Upper-case hexadecimal digit for `d < 16`.
pub open spec fn hex_digit(d: nat) -> char {
    if d < 10 {
        (('0' as u32) + d) as char
    } else {
        (('A' as u32) + d - 10) as char
    }
}

/// One byte as it appears in an encoded path segment.
pub open spec fn encode_byte(b: u8) -> Seq<char> {
    if is_unreserved(b) {
        seq![b as char]
    } else {
        seq!['%', hex_digit((b / 16) as nat), hex_digit((b % 16) as nat)]
    }
}

pub open spec fn encode_bytes(bytes: Seq<u8>) -> Seq<char>
    decreases bytes.len(),
{
    if bytes.len() == 0 {
        seq![]
    } else {
        encode_byte(bytes[0]) + encode_bytes(bytes.drop_first())
    }
}

/// Percent-encoding of the UTF-8 bytes of `s`, keeping only unreserved bytes.
pub open spec fn spec_percent_encode(s: Seq<char>) -> Seq<char> {
    encode_bytes(encode_utf8(s))
}

/// `percent_encoding::percent_encode_byte`: `%` and the byte in two
/// upper-case hexadecimal digits, as the crate's table shows.
#[verifier::external_body]
fn percent_encode_byte(b: u8) -> (r: &'static str)
    ensures
        r@ == seq!['%', hex_digit((b / 16) as nat), hex_digit((b % 16) as nat)],
{
    percent_encoding::percent_encode_byte(b)
}

/// Whether `b` is kept as is in an encoded path segment.
fn is_unreserved_byte(b: u8) -> (r: bool)
    ensures
        r == is_unreserved(b),
{
    (48 <= b && b <= 57) || (65 <= b && b <= 90) || (97 <= b && b <= 122) || b == 45 || b == 95
        || b == 46 || b == 126
}

proof fn lemma_encode_bytes_push(bytes: Seq<u8>, b: u8)
    ensures
        encode_bytes(bytes.push(b)) == encode_bytes(bytes) + encode_byte(b),
    decreases bytes.len(),
{
    if bytes.len() == 0 {
        assert(bytes.push(b).drop_first() =~= Seq::<u8>::empty());
        assert(encode_bytes(Seq::<u8>::empty()) =~= Seq::<char>::empty());
        assert(encode_bytes(bytes.push(b)) =~= encode_byte(b));
    } else {
        assert(bytes.push(b).drop_first() =~= bytes.drop_first().push(b));
        lemma_encode_bytes_push(bytes.drop_first(), b);
    }
}

proof fn lemma_encode_bytes_append(a: Seq<u8>, b: Seq<u8>)
    ensures
        encode_bytes(a + b) == encode_bytes(a) + encode_bytes(b),
    decreases a.len(),
{
    if a.len() == 0 {
        assert(a + b =~= b);
        assert(encode_bytes(a) + encode_bytes(b) =~= encode_bytes(b));
    } else {
        assert((a + b).drop_first() =~= a.drop_first() + b);
        lemma_encode_bytes_append(a.drop_first(), b);
        assert(encode_bytes(a + b) =~= encode_byte(a[0]) + (encode_bytes(a.drop_first())
            + encode_bytes(b)));
    }
}

/// An unreserved character: an ASCII letter or digit, `-`, `_`, `.` or `~`.
pub open spec fn is_unreserved_char(c: char) -> bool {
    (c as u32) < 128 && is_unreserved((c as u32) as u8)
}

/// Text made only of unreserved characters is encoded as itself.
pub proof fn lemma_unreserved_text_is_kept(s: Seq<char>)
    requires
        forall|i: int| 0 <= i < s.len() ==> is_unreserved_char(#[trigger] s[i]),
    ensures
        spec_percent_encode(s) == s,
    decreases s.len(),
{
    if s.len() > 0 {
        let c = s[0];
        let u = c as u32;
        assert(is_unreserved_char(s[0]));
        assert(u & 0x7F == u) by (bit_vector)
            requires
                u < 128,
        ;
        let b = (u & 0x7F) as u8;
        assert(encode_scalar(u) == seq![b]);
        assert forall|i: int| 0 <= i < s.drop_first().len() implies is_unreserved_char(
            #[trigger] s.drop_first()[i],
        ) by {
            assert(s.drop_first()[i] == s[i + 1]);
        }
        lemma_unreserved_text_is_kept(s.drop_first());
        lemma_encode_bytes_append(seq![b], encode_utf8(s.drop_first()));
        assert(seq![b].drop_first() =~= Seq::<u8>::empty());
        assert(encode_bytes(Seq::<u8>::empty()) =~= Seq::<char>::empty());
        assert(seq![b][0] == b);
        assert(encode_bytes(seq![b]) =~= encode_byte(b) + encode_bytes(Seq::<u8>::empty()));
        assert(encode_bytes(seq![b]) =~= encode_byte(b));
        vstd::utf8::char_u32_cast(c, u);
        assert(encode_byte(b) == seq![c]);
        assert(s =~= seq![c] + s.drop_first());
    }
}

/// No character of an encoded segment is `/`.
proof fn lemma_encode_bytes_has_no_slash(bytes: Seq<u8>)
    ensures
        forall|i: int| 0 <= i < encode_bytes(bytes).len() ==> #[trigger] encode_bytes(bytes)[i]
            != '/',
    decreases bytes.len(),
{
    if bytes.len() > 0 {
        let b = bytes[0];
        lemma_encode_bytes_has_no_slash(bytes.drop_first());
        let head = encode_byte(b);
        let tail = encode_bytes(bytes.drop_first());
        assert forall|i: int| 0 <= i < head.len() implies #[trigger] head[i] != '/' by {
            if !is_unreserved(b) {
                let hi = (b / 16) as nat;
                let lo = (b % 16) as nat;
                assert(hex_digit(hi) != '/');
                assert(hex_digit(lo) != '/');
            }
        }
        assert forall|i: int| 0 <= i < encode_bytes(bytes).len() implies #[trigger] encode_bytes(
            bytes,
        )[i] != '/' by {
            assert(encode_bytes(bytes) == head + tail);
            if i >= head.len() {
                assert(encode_bytes(bytes)[i] == tail[i - head.len()]);
            } else {
                assert(encode_bytes(bytes)[i] == head[i]);
            }
        }
    }
}

/// An encoded segment holds no `/`, so whatever the text, it stays one
/// segment of the path.
pub proof fn lemma_encoded_segment_has_no_slash(s: Seq<char>)
    ensures
        !spec_percent_encode(s).contains('/'),
{
    lemma_encode_bytes_has_no_slash(encode_utf8(s));
}

/// Percent-encodes `s` for use as one URL path segment: every byte of its
/// UTF-8 form except the RFC 3986 unreserved ones is written `%XX`, so ids
/// holding reserved characters (`:`, `|`, `=`, `/`) travel intact.
pub fn encode_path_segment(s: &str) -> (r: String)
    ensures
        r@ == spec_percent_encode(s@),
{
    let bytes = s.as_bytes();
    let n = bytes.len();
    let mut r = String::new();
    for i in 0..n
        invariant
            n == bytes@.len(),
            bytes@ == encode_utf8(s@),
            r@ == encode_bytes(bytes@.take(i as int)),
    {
        let b = bytes[i];
        proof {
            assert(bytes@.take((i + 1) as int) =~= bytes@.take(i as int).push(b));
            lemma_encode_bytes_push(bytes@.take(i as int), b);
        }
        if is_unreserved_byte(b) {
            crate::text::push_char(&mut r, b as char);
            assert(r@ =~= encode_bytes(bytes@.take((i + 1) as int)));
        } else {
            r.append(percent_encode_byte(b));
        }
    }
    assert(bytes@.take(n as int) =~= bytes@);
    r
}

} // verus!
