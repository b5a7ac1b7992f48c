//! Request URLs: parsing and joining through the `url` crate, and the
//! `application/x-www-form-urlencoded` query pairs that it appends.
use vstd::prelude::*;
use vstd::utf8::{encode_utf8, is_ascii_chars, is_ascii_chars_encode_utf8};
use vstd::string::*;
use crate::text::is_ascii_alnum;

verus! {

/// What `url::Url::parse` makes of a text: the serialization of the parsed
/// URL, or `None` where parsing fails.
pub uninterp spec fn parsed_url(text: Seq<char>) -> Option<Seq<char>>;

/// What `url::Url::join` makes of a reference resolved against a base URL:
/// the serialization of the result, or `None` where it fails.
pub uninterp spec fn joined_url(base: Seq<char>, reference: Seq<char>) -> Option<Seq<char>>;

/// A text that is the serialization of a URL and parses back to itself.
pub open spec fn is_url_text(text: Seq<char>) -> bool {
    parsed_url(text) == Some(text)
}

/// The position of the first `c` in `s`, or the length of `s` without one.
pub open spec fn first_index_of(s: Seq<char>, c: char) -> int
    decreases s.len(),
{
    if s.len() == 0 {
        0
    } else if s[0] == c {
        0
    } else {
        1 + first_index_of(s.drop_first(), c)
    }
}

/// Bytes that form encoding leaves as they are.
pub open spec fn form_unreserved(b: u8) -> bool {
    b == 42 || b == 45 || b == 46 || (48 <= b <= 57) || (65 <= b <= 90) || b == 95 || (97 <= b
        <= 122)
}

/// An upper-case hexadecimal digit.
pub open spec fn hex_digit(d: u8) -> char {
    if d < 10 {
        (48 + d) as char
    } else {
        (55 + d) as char
    }
}

/// The form encoding of one byte: kept, `+` for a space, or `%XX`.
pub open spec fn form_encoded_byte(b: u8) -> Seq<char> {
    if form_unreserved(b) {
        seq![b as char]
    } else if b == 32 {
        seq!['+']
    } else {
        seq!['%', hex_digit(b / 16), hex_digit(b % 16)]
    }
}

/// The form encoding of a sequence of bytes.
pub open spec fn form_encoded_bytes(bytes: Seq<u8>) -> Seq<char>
    decreases bytes.len(),
{
    if bytes.len() == 0 {
        seq![]
    } else {
        form_encoded_byte(bytes[0]) + form_encoded_bytes(bytes.drop_first())
    }
}

/// The form encoding of a text, taken byte by byte of its UTF-8 encoding.
pub open spec fn form_encoded(s: Seq<char>) -> Seq<char> {
    form_encoded_bytes(encode_utf8(s))
}

/// A URL text with one more `name=value` pair at the end of its query: the
/// query is started with `?` where there is none, continued with `&` where it
/// is not empty, and a fragment stays at the end.
pub open spec fn with_query_pair(url: Seq<char>, name: Seq<char>, value: Seq<char>) -> Seq<char> {
    let h = first_index_of(url, '#');
    let before = url.take(h);
    let fragment = url.skip(h);
    let q = first_index_of(before, '?');
    let sep = if q == before.len() {
        seq!['?']
    } else if q == before.len() - 1 {
        Seq::<char>::empty()
    } else {
        seq!['&']
    };
    before + sep + form_encoded(name) + seq!['='] + form_encoded(value) + fragment
}

/// Whether the `url` crate can append the pair. A query that the pair starts
/// begins at a position that the crate keeps in 32 bits, a fragment after the
/// query must still begin within the first 4 GiB, and the whole text must fit
/// in memory. URL texts and form encodings are ASCII, so characters count
/// bytes here.
pub open spec fn pair_fits(url: Seq<char>, name: Seq<char>, value: Seq<char>) -> bool {
    let h = first_index_of(url, '#');
    let q = first_index_of(url.take(h), '?');
    let grown = with_query_pair(url, name, value);
    &&& q == h ==> h <= u32::MAX
    &&& h < url.len() ==> grown.len() - (url.len() - h) <= u32::MAX
    &&& grown.len() <= isize::MAX
}

/// `url` with all `pairs` appended in order, or `None` where the URL would
/// grow too long.
pub open spec fn with_query_pairs(url: Seq<char>, pairs: Seq<(Seq<char>, Seq<char>)>) -> Option<
    Seq<char>,
>
    decreases pairs.len(),
{
    if pairs.len() == 0 {
        Some(url)
    } else if !pair_fits(url, pairs[0].0, pairs[0].1) {
        None
    } else {
        with_query_pairs(with_query_pair(url, pairs[0].0, pairs[0].1), pairs.drop_first())
    }
}

/// The form encoding of two byte sequences one after the other is the
/// encoding of the first followed by that of the second.
proof fn lemma_form_encoded_concat(a: Seq<u8>, b: Seq<u8>)
    ensures
        form_encoded_bytes(a + b) == form_encoded_bytes(a) + form_encoded_bytes(b),
    decreases a.len(),
{
    if a.len() == 0 {
        assert(a + b =~= b);
    } else {
        assert((a + b).drop_first() =~= a.drop_first() + b);
        assert((a + b)[0] == a[0]);
        lemma_form_encoded_concat(a.drop_first(), b);
    }
}

/// Form encoding writes ASCII only.
proof fn lemma_form_encoded_ascii(bytes: Seq<u8>)
    ensures
        is_ascii_chars(form_encoded_bytes(bytes)),
    decreases bytes.len(),
{
    if bytes.len() > 0 {
        lemma_form_encoded_ascii(bytes.drop_first());
        let b = bytes[0];
        let e = form_encoded_byte(b);
        assert(is_ascii_chars(e)) by {
            if form_unreserved(b) {
                assert(e[0] == b as char);
            } else if b != 32 {
                assert(b / 16 < 16 && b % 16 < 16);
            }
        }
        vstd::utf8::is_ascii_chars_concat(
            form_encoded_bytes(bytes),
            e,
            form_encoded_bytes(bytes.drop_first()),
        );
    }
}

/// Appending a pair to an ASCII URL text gives an ASCII text.
pub proof fn lemma_with_query_pair_ascii(url: Seq<char>, name: Seq<char>, value: Seq<char>)
    requires
        is_ascii_chars(url),
    ensures
        is_ascii_chars(with_query_pair(url, name, value)),
{
    lemma_form_encoded_ascii(encode_utf8(name));
    lemma_form_encoded_ascii(encode_utf8(value));
    let r = with_query_pair(url, name, value);
    let h = first_index_of(url, '#');
    lemma_first_index_bound(url, '#');
    assert forall|i: int| 0 <= i < r.len() implies '\0' <= #[trigger] r[i] <= '\u{7f}' by {
        let before = url.take(h);
        let q = first_index_of(before, '?');
        let sep = if q == before.len() {
            seq!['?']
        } else if q == before.len() - 1 {
            Seq::<char>::empty()
        } else {
            seq!['&']
        };
        let n = form_encoded(name);
        let v = form_encoded(value);
        let f = url.skip(h);
        assert(r == before + sep + n + seq!['='] + v + f);
        let a = before.len() as int;
        let b = a + sep.len();
        let c = b + n.len();
        let d = c + 1;
        let e = d + v.len();
        if i < a {
            assert(r[i] == url[i]);
        } else if i < b {
            assert(r[i] == sep[i - a]);
        } else if i < c {
            assert(r[i] == n[i - b]);
        } else if i < d {
            assert(r[i] == '=');
        } else if i < e {
            assert(r[i] == v[i - d]);
        } else {
            assert(r[i] == url[i - e + h]);
        }
    }
}

/// The first position of `c` lies within the text.
pub proof fn lemma_first_index_bound(s: Seq<char>, c: char)
    ensures
        0 <= first_index_of(s, c) <= s.len(),
        first_index_of(s, c) < s.len() ==> s[first_index_of(s, c)] == c,
        forall|j: int| 0 <= j < first_index_of(s, c) ==> s[j] != c,
    decreases s.len(),
{
    if s.len() > 0 && s[0] != c {
        lemma_first_index_bound(s.drop_first(), c);
        assert forall|j: int| 0 <= j < first_index_of(s, c) implies s[j] != c by {
            if j > 0 {
                assert(s[j] == s.drop_first()[j - 1]);
            }
        }
    }
}

/// A position before which `c` does not occur, and at which it occurs or the
/// text ends, is the first position of `c`.
pub proof fn lemma_first_index(s: Seq<char>, c: char, i: int)
    requires
        0 <= i <= s.len(),
        forall|j: int| 0 <= j < i ==> s[j] != c,
        i == s.len() || s[i] == c,
    ensures
        first_index_of(s, c) == i,
    decreases i,
{
    if i > 0 {
        assert forall|j: int| 0 <= j < i - 1 implies s.drop_first()[j] != c by {
            assert(s.drop_first()[j] == s[j + 1]);
        }
        lemma_first_index(s.drop_first(), c, i - 1);
    }
}

/// Two ASCII characters are equal exactly when their bytes are.
proof fn lemma_ascii_byte(a: char, b: char)
    requires
        '\0' <= a <= '\u{7f}',
        '\0' <= b <= '\u{7f}',
    ensures
        (a as u8 == b as u8) <==> a == b,
{
    let u = a as u32;
    let v = b as u32;
    vstd::utf8::char_u32_cast(a, u);
    vstd::utf8::char_u32_cast(b, v);
    assert((u as u8) as u32 == u) by (bit_vector)
        requires
            u < 128,
    ;
    assert((v as u8) as u32 == v) by (bit_vector)
        requires
            v < 128,
    ;
}

/// The first position of `c` among the first `limit` characters of the
/// ASCII text `s`, or `limit` where it does not occur there.
fn first_index_before(s: &str, c: char, limit: usize) -> (r: usize)
    requires
        limit <= s@.len(),
        is_ascii_chars(s@),
        c == '#' || c == '?',
    ensures
        r as int == first_index_of(s@.take(limit as int), c),
        r <= limit,
{
    let bytes = s.as_bytes();
    proof {
        is_ascii_chars_encode_utf8(s@);
    }
    let cb: u8 = if c == '#' {
        35
    } else {
        63
    };
    assert(cb == c as u8);
    let mut i: usize = 0;
    while i < limit && bytes[i] != cb
        invariant
            i <= limit,
            limit <= s@.len(),
            s@.len() == bytes@.len(),
            is_ascii_chars(s@),
            forall|j: int| 0 <= j < s@.len() ==> s@[j] as u8 == #[trigger] bytes@[j],
            cb == c as u8,
            c == '#' || c == '?',
            forall|j: int| 0 <= j < i ==> s@[j] != c,
        decreases limit - i,
    {
        proof {
            assert(bytes@[i as int] == s@[i as int] as u8);
            lemma_ascii_byte(s@[i as int], c);
        }
        i = i + 1;
    }
    proof {
        let t = s@.take(limit as int);
        if i < limit {
            assert(bytes@[i as int] == s@[i as int] as u8);
            lemma_ascii_byte(s@[i as int], c);
        }
        assert forall|j: int| 0 <= j < i implies t[j] != c by {
            assert(t[j] == s@[j]);
        }
        lemma_first_index(t, c, i as int);
    }
    i
}

/// Whether form encoding leaves a byte as it is.
fn is_form_unreserved(b: u8) -> (r: bool)
    ensures
        r == form_unreserved(b),
{
    b == 42 || b == 45 || b == 46 || (48 <= b && b <= 57) || (65 <= b && b <= 90) || b == 95
        || (97 <= b && b <= 122)
}

/// The length of the form encoding of a text.
fn form_encoded_len(s: &str) -> (n: u128)
    ensures
        n == form_encoded(s@).len(),
        n <= 3 * usize::MAX,
{
    let bytes = s.as_bytes();
    let mut n: u128 = 0;
    let mut i: usize = 0;
    while i < bytes.len()
        invariant
            i <= bytes@.len(),
            bytes@ == encode_utf8(s@),
            n == form_encoded_bytes(bytes@.take(i as int)).len(),
            n <= 3 * i,
        decreases bytes@.len() - i,
    {
        let b = bytes[i];
        let k: u128 = if is_form_unreserved(b) || b == 32 {
            1
        } else {
            3
        };
        proof {
            assert(bytes@.take(i + 1) =~= bytes@.take(i as int) + seq![b]);
            lemma_form_encoded_concat(bytes@.take(i as int), seq![b]);
            assert(seq![b].drop_first() =~= Seq::<u8>::empty());
            assert(form_encoded_bytes(seq![b]) == form_encoded_byte(b) + form_encoded_bytes(
                Seq::<u8>::empty(),
            ));
        }
        n = n + k;
        i = i + 1;
    }
    assert(bytes@.take(bytes@.len() as int) =~= bytes@);
    n
}

/// Whether the `url` crate can append the pair, as `pair_fits` states.
pub(crate) fn query_pair_fits(url: &str, name: &str, value: &str) -> (b: bool)
    requires
        is_ascii_chars(url@),
    ensures
        b == pair_fits(url@, name@, value@),
{
    let len = url.unicode_len();
    let h = first_index_before(url, '#', len);
    assert(url@.take(len as int) =~= url@);
    let q = first_index_before(url, '?', h);
    proof {
        assert forall|i: int| 0 <= i < url@.take(h as int).len() implies '\0' <= #[trigger] url@.take(h as int)[i] <= '\u{7f}' by {
            assert(url@.take(h as int)[i] == url@[i]);
        }
        lemma_first_index_bound(url@, '#');
        assert(url@.take(h as int).take(h as int) =~= url@.take(h as int));
    }
    let en = form_encoded_len(name);
    let ev = form_encoded_len(value);
    let sep: u128 = if q == h {
        1
    } else if q + 1 == h {
        0
    } else {
        1
    };
    let before: u128 = h as u128 + sep + en + 1 + ev;
    let grown: u128 = before + (len - h) as u128;
    proof {
        let t = url@.take(h as int);
        let sq = if q == h {
            seq!['?']
        } else if q == t.len() - 1 {
            Seq::<char>::empty()
        } else {
            seq!['&']
        };
        assert(sq.len() == sep);
        assert(with_query_pair(url@, name@, value@) == t + sq + form_encoded(name@) + seq!['=']
            + form_encoded(value@) + url@.skip(h as int));
    }
    (q != h || h as u128 <= 0xffff_ffff) && (h == len || before <= 0xffff_ffff) && grown
        <= isize::MAX as u128
}

/// Characters that form encoding leaves as they are.
pub open spec fn form_plain(c: char) -> bool {
    is_ascii_alnum(c) || c == '*' || c == '-' || c == '.' || c == '_'
}

proof fn lemma_plain_bytes(bytes: Seq<u8>)
    requires
        forall|i: int| 0 <= i < bytes.len() ==> form_unreserved(#[trigger] bytes[i]),
    ensures
        form_encoded_bytes(bytes) =~= Seq::new(bytes.len(), |i: int| bytes[i] as char),
    decreases bytes.len(),
{
    if bytes.len() > 0 {
        let rest = bytes.drop_first();
        assert forall|i: int| 0 <= i < rest.len() implies form_unreserved(#[trigger] rest[i]) by {
            assert(rest[i] == bytes[i + 1]);
        }
        lemma_plain_bytes(rest);
    }
}

/// Law: a text of ASCII letters, digits and `*-._` is sent as it is. Every
/// parameter name of this library, and every valid API key, is such a text.
pub proof fn law_plain_text_encodes_as_itself(s: Seq<char>)
    requires
        forall|i: int| 0 <= i < s.len() ==> form_plain(#[trigger] s[i]),
    ensures
        form_encoded(s) == s,
{
    assert(is_ascii_chars(s));
    is_ascii_chars_encode_utf8(s);
    let bytes = encode_utf8(s);
    assert forall|i: int| 0 <= i < bytes.len() implies form_unreserved(#[trigger] bytes[i]) by {
        assert(s[i] as u8 == bytes[i]);
    }
    lemma_plain_bytes(bytes);
    assert forall|i: int| 0 <= i < s.len() implies (#[trigger] bytes[i]) as char == s[i] by {
        let c = s[i];
        let u = c as u32;
        vstd::utf8::char_u32_cast(c, u);
        assert(c as u8 == bytes[i]);
        assert((u as u8) as u32 == u) by (bit_vector)
            requires
                u < 128,
        ;
    }
    assert(form_encoded(s) =~= s);
}

/// Parses a URL with `url::Url::parse` and returns its serialization. The
/// contract names the result (`parsed_url`) and claims what the crate's own
/// invariant check (`Url::check_invariants`) asserts: the serialization
/// parses back to itself. It also claims that the serialization is ASCII:
/// the crate documents each component as ASCII (hosts in punycode, the rest
/// percent-encoded), and `percent-encoding` always encodes non-ASCII bytes.
#[verifier::external_body]
pub(crate) fn parse_url(text: &str) -> (r: Result<String, url::ParseError>)
    ensures
        r is Ok <==> parsed_url(text@) is Some,
        r is Ok ==> r->Ok_0@ == parsed_url(text@)->0,
        r is Ok ==> is_url_text(r->Ok_0@),
        r is Ok ==> is_ascii_chars(r->Ok_0@),
{
    match url::Url::parse(text) {
        Ok(u) => Ok(u.into()),
        Err(e) => Err(e),
    }
}

/// Resolves `reference` against the URL that `base` serializes, with
/// `url::Url::join`. The contract names the result (`joined_url`) and claims
/// that it parses back to itself, as `Url::check_invariants` asserts, and that
/// it is ASCII, as every serialization of the crate is.
#[verifier::external_body]
pub(crate) fn join_url(base: &str, reference: &str) -> (r: Result<String, url::ParseError>)
    requires
        is_url_text(base@),
    ensures
        r is Ok <==> joined_url(base@, reference@) is Some,
        r is Ok ==> r->Ok_0@ == joined_url(base@, reference@)->0,
        r is Ok ==> is_url_text(r->Ok_0@),
        r is Ok ==> is_ascii_chars(r->Ok_0@),
{
    match url::Url::parse(base) {
        Ok(b) => match b.join(reference) {
            Ok(u) => Ok(u.into()),
            Err(e) => Err(e),
        },
        Err(e) => Err(e),
    }
}

/// Appends one pair to the query of the URL that `url` serializes, through
/// `url::Url::query_pairs_mut().append_pair`. The contract states the text
/// that results as the `url` and `form_urlencoded` sources write it, and that
/// it is again a URL text. `pair_fits` leaves out the texts on which the
/// crate panics: a new query or a fragment that would start past 4 GiB, or a
/// text too large to allocate.
#[verifier::external_body]
pub(crate) fn append_query_pair(url: &str, name: &str, value: &str) -> (r: String)
    requires
        is_url_text(url@),
        is_ascii_chars(url@),
        pair_fits(url@, name@, value@),
    ensures
        r@ == with_query_pair(url@, name@, value@),
        is_url_text(r@),
{
    let mut u = url::Url::parse(url).expect("a URL text parses");
    u.query_pairs_mut().append_pair(name, value);
    u.into()
}

/// The `url` crate's error for a URL that would exceed 4 GiB.
#[verifier::external_body]
pub(crate) fn url_too_long() -> url::ParseError {
    url::ParseError::Overflow
}

} // verus!
