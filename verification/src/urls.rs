//! Percent-encoding and percent-decoding of URL components (the behaviour of the
//! `urlencoding` crate), and query-string parameters.
use vstd::prelude::*;
use vstd::utf8::{decode_utf8, encode_utf8, is_ascii_chars, valid_utf8};
use crate::text::{push_char, str_to_chars};

verus! {

broadcast use vstd::string::group_string_axioms;

/// Bytes that `urlencoding::encode` leaves as they are: ASCII letters and digits
/// and `-`, `.`, `_`, `~`.
pub open spec fn is_url_safe_byte(b: u8) -> bool {
    ||| 48 <= b <= 57
    ||| 65 <= b <= 90
    ||| 97 <= b <= 122
    ||| b == 45
    ||| b == 46
    ||| b == 95
    ||| b == 126
}

/// The uppercase hexadecimal digit of a value below 16.
pub open spec fn hex_digit_char(d: u8) -> char {
    if d < 10 {
        (48 + d) as char
    } else {
        (55 + d) as char
    }
}

/// How `urlencoding::encode` writes one byte: itself when safe, else `%` and two
/// uppercase hexadecimal digits.
pub open spec fn encoded_byte(b: u8) -> Seq<char> {
    if is_url_safe_byte(b) {
        seq![b as char]
    } else {
        seq!['%', hex_digit_char(b / 16), hex_digit_char(b % 16)]
    }
}

/// The percent-encoding of a byte sequence.
pub open spec fn percent_encode(b: Seq<u8>) -> Seq<char>
    decreases b.len(),
{
    if b.len() == 0 {
        Seq::empty()
    } else {
        percent_encode(b.drop_last()) + encoded_byte(b.last())
    }
}

/// What `urlencoding::encode` gives for a text: the percent-encoding of its UTF-8 bytes.
pub open spec fn url_encoded(s: Seq<char>) -> Seq<char> {
    percent_encode(encode_utf8(s))
}

/// Whether a byte is an ASCII hexadecimal digit.
pub open spec fn is_hex_byte(b: u8) -> bool {
    ||| 48 <= b <= 57
    ||| 65 <= b <= 70
    ||| 97 <= b <= 102
}

/// The value of an ASCII hexadecimal digit.
pub open spec fn hex_value(b: u8) -> int {
    if 48 <= b <= 57 {
        b - 48
    } else if 65 <= b <= 70 {
        b - 55
    } else {
        b - 87
    }
}

/// How `urlencoding::decode_binary` decodes bytes: each `%` followed by two
/// hexadecimal digits becomes the byte they denote; every other byte is kept.
pub open spec fn percent_decode(b: Seq<u8>) -> Seq<u8>
    decreases b.len(),
{
    if b.len() == 0 {
        Seq::empty()
    } else if b[0] == 37 && b.len() >= 3 && is_hex_byte(b[1]) && is_hex_byte(b[2]) {
        seq![(hex_value(b[1]) * 16 + hex_value(b[2])) as u8] + percent_decode(b.skip(3))
    } else {
        seq![b[0]] + percent_decode(b.drop_first())
    }
}

/// What `urlencoding::decode` yields for a text, with the text itself kept when
/// the decoded bytes are not valid UTF-8 (as the callers in this crate do).
pub open spec fn url_decoded(s: Seq<char>) -> Seq<char> {
    let d = percent_decode(encode_utf8(s));
    if valid_utf8(d) {
        decode_utf8(d)
    } else {
        s
    }
}

fn hex_digit(d: u8) -> (c: char)
    requires
        d < 16,
    ensures
        c == hex_digit_char(d),
{
    if d < 10 {
        (48 + d) as char
    } else {
        (55 + d) as char
    }
}

/// Percent-encodes the UTF-8 bytes of `s`, keeping ASCII letters, digits and `-._~`.
pub fn url_encode(s: &str) -> (r: String)
    ensures
        r@ == url_encoded(s@),
{
    let b = s.as_bytes();
    let ghost bs = encode_utf8(s@);
    assert(b@ == bs);
    let mut r = String::new();
    let mut i: usize = 0;
    while i < b.len()
        invariant
            i <= b@.len(),
            b@ == bs,
            r@ == percent_encode(bs.take(i as int)),
        decreases b@.len() - i,
    {
        let x = b[i];
        assert(bs.take(i + 1).drop_last() =~= bs.take(i as int));
        assert(bs.take(i + 1).last() == x);
        if (48 <= x && x <= 57) || (65 <= x && x <= 90) || (97 <= x && x <= 122) || x == 45 || x
            == 46 || x == 95 || x == 126 {
            push_char(&mut r, x as char);
        } else {
            push_char(&mut r, '%');
            push_char(&mut r, hex_digit(x / 16));
            push_char(&mut r, hex_digit(x % 16));
        }
        i = i + 1;
    }
    assert(bs.take(b@.len() as int) =~= bs);
    r
}

fn is_hex(b: u8) -> (r: bool)
    ensures
        r == is_hex_byte(b),
{
    (48 <= b && b <= 57) || (65 <= b && b <= 70) || (97 <= b && b <= 102)
}

fn hex_val(b: u8) -> (v: u8)
    requires
        is_hex_byte(b),
    ensures
        v as int == hex_value(b),
        v < 16,
{
    if 48 <= b && b <= 57 {
        b - 48
    } else if 65 <= b && b <= 70 {
        b - 55
    } else {
        b - 87
    }
}

/// Makes a string of UTF-8 bytes: calls `String::from_utf8`, which (as std
/// documents) fails exactly when the bytes are not valid UTF-8.
#[verifier::external_body]
fn string_from_utf8(bytes: Vec<u8>) -> (r: Option<String>)
    ensures
        match r {
            Some(s) => valid_utf8(bytes@) && s@ == decode_utf8(bytes@),
            None => !valid_utf8(bytes@),
        },
{
    String::from_utf8(bytes).ok()
}

/// Percent-decodes `s` as `urlencoding::decode` does; when the decoded bytes are
/// not valid UTF-8 the text is returned as it is.
pub fn decode_or_keep(s: &str) -> (r: String)
    ensures
        r@ == url_decoded(s@),
{
    let b = s.as_bytes();
    let ghost bs = encode_utf8(s@);
    assert(b@ == bs);
    let mut out: Vec<u8> = Vec::new();
    let mut i: usize = 0;
    assert(bs.skip(0) =~= bs);
    while i < b.len()
        invariant
            i <= b@.len(),
            b@ == bs,
            out@ + percent_decode(bs.skip(i as int)) == percent_decode(bs),
        decreases b@.len() - i,
    {
        let ghost rest = bs.skip(i as int);
        if b[i] == 37 && b.len() - i >= 3 && is_hex(b[i + 1]) && is_hex(b[i + 2]) {
            assert(rest[0] == 37 && rest[1] == b[i + 1] && rest[2] == b[i + 2]);
            let v = hex_val(b[i + 1]) * 16 + hex_val(b[i + 2]);
            assert(rest.skip(3) =~= bs.skip(i + 3));
            out.push(v);
            assert(percent_decode(rest) == seq![v] + percent_decode(rest.skip(3)));
            assert(out@ + percent_decode(bs.skip(i + 3)) =~= (out@.drop_last() + seq![v])
                + percent_decode(rest.skip(3)));
            i = i + 3;
        } else {
            assert(rest[0] == b[i as int]);
            assert(rest.len() >= 3 ==> rest[1] == b[i + 1] && rest[2] == b[i + 2]);
            assert(rest.drop_first() =~= bs.skip(i + 1));
            out.push(b[i]);
            assert(percent_decode(rest) == seq![b[i as int]] + percent_decode(rest.drop_first()));
            assert(out@ + percent_decode(bs.skip(i + 1)) =~= (out@.drop_last() + seq![b[i as int]])
                + percent_decode(rest.drop_first()));
            i = i + 1;
        }
    }
    assert(bs.skip(b@.len() as int) =~= Seq::<u8>::empty());
    assert(percent_decode(Seq::<u8>::empty()) =~= Seq::<u8>::empty());
    assert(out@ =~= percent_decode(bs));
    match string_from_utf8(out) {
        Some(d) => d,
        None => s.to_owned(),
    }
}

/// The UTF-8 encoding of a concatenation is the concatenation of the encodings.
proof fn lemma_encode_utf8_concat(x: Seq<char>, y: Seq<char>)
    ensures
        encode_utf8(x + y) == encode_utf8(x) + encode_utf8(y),
    decreases x.len(),
{
    if x.len() == 0 {
        assert(x + y =~= y);
    } else {
        lemma_encode_utf8_concat(x.drop_first(), y);
        assert((x + y).drop_first() =~= x.drop_first() + y);
        assert(encode_utf8(x + y) =~= encode_utf8(x) + encode_utf8(y));
    }
}

/// The byte of an uppercase hexadecimal digit.
spec fn hex_digit_byte(d: u8) -> u8 {
    if d < 10 {
        (48 + d) as u8
    } else {
        (55 + d) as u8
    }
}

/// The bytes of the characters that encode one byte.
spec fn encoded_bytes(b: u8) -> Seq<u8> {
    if is_url_safe_byte(b) {
        seq![b]
    } else {
        seq![37u8, hex_digit_byte(b / 16), hex_digit_byte(b % 16)]
    }
}

/// An ASCII character is encoded as its own byte.
proof fn lemma_encode_ascii_char(c: char, b: u8)
    requires
        c as u32 == b as u32,
        b < 128,
    ensures
        encode_utf8(seq![c]) == seq![b],
{
    let s = seq![c];
    assert(is_ascii_chars(s));
    vstd::utf8::is_ascii_chars_encode_utf8(s);
    assert(s[0] == c);
    assert(encode_utf8(s) =~= seq![b]);
}

/// The characters that encode a byte are ASCII, and their bytes are `encoded_bytes`.
proof fn lemma_encoded_byte_utf8(b: u8)
    ensures
        encode_utf8(encoded_byte(b)) == encoded_bytes(b),
{
    if is_url_safe_byte(b) {
        lemma_encode_ascii_char(b as char, b);
    } else {
        let h1 = hex_digit_char(b / 16);
        let h2 = hex_digit_char(b % 16);
        lemma_encode_ascii_char('%', 37u8);
        lemma_encode_ascii_char(h1, hex_digit_byte(b / 16));
        lemma_encode_ascii_char(h2, hex_digit_byte(b % 16));
        assert(encoded_byte(b) =~= seq!['%'] + seq![h1] + seq![h2]);
        lemma_encode_utf8_concat(seq!['%'] + seq![h1], seq![h2]);
        lemma_encode_utf8_concat(seq!['%'], seq![h1]);
        assert(encode_utf8(encoded_byte(b)) =~= encoded_bytes(b));
    }
}

/// Percent-encoding a nonempty sequence starts with the encoding of its first byte.
proof fn lemma_percent_encode_front(b: Seq<u8>)
    requires
        b.len() > 0,
    ensures
        percent_encode(b) == encoded_byte(b[0]) + percent_encode(b.drop_first()),
    decreases b.len(),
{
    if b.len() == 1 {
        assert(b.drop_last() =~= Seq::<u8>::empty());
        assert(b.drop_first() =~= Seq::<u8>::empty());
        assert(percent_encode(b) =~= encoded_byte(b[0]) + percent_encode(b.drop_first()));
    } else {
        lemma_percent_encode_front(b.drop_last());
        assert(b.drop_first().drop_last() =~= b.drop_last().drop_first());
        assert(b.drop_first().last() == b.last());
        assert(percent_encode(b) =~= encoded_byte(b[0]) + percent_encode(b.drop_first()));
    }
}

/// Decoding the bytes that encode one byte gives that byte back.
proof fn lemma_decode_encoded_bytes(b: u8, rest: Seq<u8>)
    ensures
        percent_decode(encoded_bytes(b) + rest) == seq![b] + percent_decode(rest),
{
    let e = encoded_bytes(b) + rest;
    if is_url_safe_byte(b) {
        assert(e[0] == b);
        assert(e.drop_first() =~= rest);
    } else {
        let hi = b / 16;
        let lo = b % 16;
        assert(e[0] == 37u8 && e[1] == hex_digit_byte(hi) && e[2] == hex_digit_byte(lo));
        assert(is_hex_byte(hex_digit_byte(hi)) && hex_value(hex_digit_byte(hi)) == hi);
        assert(is_hex_byte(hex_digit_byte(lo)) && hex_value(hex_digit_byte(lo)) == lo);
        assert(hi * 16 + lo == b);
        assert(e.skip(3) =~= rest);
    }
}

/// Decoding the UTF-8 bytes of a percent-encoding gives the encoded bytes back.
proof fn lemma_percent_decode_encode(b: Seq<u8>)
    ensures
        percent_decode(encode_utf8(percent_encode(b))) == b,
    decreases b.len(),
{
    if b.len() == 0 {
        assert(percent_encode(b) =~= Seq::<char>::empty());
        assert(encode_utf8(Seq::<char>::empty()) =~= Seq::<u8>::empty());
    } else {
        lemma_percent_encode_front(b);
        lemma_encode_utf8_concat(encoded_byte(b[0]), percent_encode(b.drop_first()));
        lemma_encoded_byte_utf8(b[0]);
        lemma_decode_encoded_bytes(b[0], encode_utf8(percent_encode(b.drop_first())));
        lemma_percent_decode_encode(b.drop_first());
        assert(seq![b[0]] + b.drop_first() =~= b);
    }
}

/// Percent-decoding undoes percent-encoding: decoding the encoding of a text
/// gives the text back.
pub proof fn lemma_url_decode_encode(s: Seq<char>)
    ensures
        url_decoded(url_encoded(s)) == s,
{
    broadcast use vstd::utf8::encode_utf8_valid_utf8, vstd::utf8::encode_utf8_decode_utf8;

    lemma_percent_decode_encode(encode_utf8(s));
}

/// The value that `qstring` gives for parameter `name` of the query string
/// `query`: the first pair with that (percent-decoded) name, its decoded value,
/// or the empty text for a parameter without `=`.
pub uninterp spec fn query_param(query: Seq<char>, name: Seq<char>) -> Option<Seq<char>>;

/// The places where `qstring` looks at the first character of what is left of
/// a query string: its start, after a leading `?`, after each `&`, and after an
/// `=` that stands in such a place itself (a parameter with an empty name).
pub open spec fn qstring_boundary(q: Seq<char>, i: int) -> bool
    decreases i,
{
    if i <= 0 {
        i == 0
    } else if i == 1 && q[0] == '?' {
        true
    } else if q[i - 1] == '&' {
        true
    } else {
        q[i - 1] == '=' && qstring_boundary(q, i - 1)
    }
}

/// A query string that `qstring` reads without panicking: it slices the first
/// byte of what is left at each of those places, so the character there must be
/// ASCII.
pub open spec fn qstring_safe(q: Seq<char>) -> bool {
    forall|i: int| 0 <= i < q.len() && #[trigger] qstring_boundary(q, i) ==> (q[i] as u32) < 128
}

/// Tells whether `qstring` can read the query string (see `qstring_safe`).
pub fn is_qstring_safe(query: &str) -> (r: bool)
    ensures
        r == qstring_safe(query@),
{
    let v = str_to_chars(query);
    let mut at_boundary = true;
    let mut i: usize = 0;
    while i < v.len()
        invariant
            v@ == query@,
            i <= v.len(),
            at_boundary == qstring_boundary(query@, i as int),
            forall|j: int| 0 <= j < i && #[trigger] qstring_boundary(query@, j) ==> (query@[j] as u32) < 128,
        decreases v.len() - i,
    {
        let c = v[i];
        if at_boundary && (c as u32) >= 128 {
            return false;
        }
        at_boundary = (i == 0 && c == '?') || c == '&' || (c == '=' && at_boundary);
        i = i + 1;
    }
    true
}

/// Calls `qstring::QString::from` on the query string and `QString::get` with
/// `name`.  Only the name `query_param` is claimed of the result.  `qstring`
/// slices the first byte at each place of `qstring_boundary`, which panics on
/// a character longer than one byte: such query strings are left out.
#[verifier::external_body]
pub(crate) fn query_get(query: &str, name: &str) -> (r: Option<String>)
    requires
        qstring_safe(query@),
    ensures
        match r {
            Some(v) => query_param(query@, name@) == Some(v@),
            None => query_param(query@, name@) is None,
        },
{
    qstring::QString::from(query).get(name).map(|v| v.to_string())
}

} // verus!
