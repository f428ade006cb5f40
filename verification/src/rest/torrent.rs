//! The torrent download endpoint: the download token, the cookies handed over
//! from Scrappey, the URLs involved and the checks on the downloaded file.
use vstd::prelude::*;
use base64::Engine as _;
use vstd::utf8::encode_utf8;
use crate::numbers::{decimal, usize_to_string};
use crate::scrappey::{is_success_status, ScrappeyCookie};
use crate::text::{
    chars_range_to_string, chars_to_string, contains_chars, contains_seq, join_strings, matches_at,
    join_with, lemma_split_on_nonempty, push_str, split_chars, split_on, str_to_chars,
};

verus! {

broadcast use vstd::string::group_string_axioms;

/// `s` without the leading occurrences of `c`.
pub open spec fn strip_leading(s: Seq<char>, c: char) -> Seq<char>
    decreases s.len(),
{
    if s.len() > 0 && s[0] == c {
        strip_leading(s.drop_first(), c)
    } else {
        s
    }
}

proof fn lemma_strip_leading_skip(s: Seq<char>, c: char, i: int)
    requires
        0 <= i <= s.len(),
        forall|k: int| 0 <= k < i ==> #[trigger] s[k] == c,
        i == s.len() || s[i] != c,
    ensures
        strip_leading(s, c) == s.skip(i),
    decreases i,
{
    if i > 0 {
        let t = s.drop_first();
        assert forall|k: int| 0 <= k < i - 1 implies #[trigger] t[k] == c by {
            assert(t[k] == s[k + 1]);
        }
        lemma_strip_leading_skip(t, c, i - 1);
        assert(t.skip(i - 1) == s.skip(i));
    } else {
        assert(s.skip(0) == s);
    }
}

fn strip_leading_chars(v: &[char], c: char) -> (r: Vec<char>)
    ensures
        r@ == strip_leading(v@, c),
{
    let mut i: usize = 0;
    while i < v.len() && v[i] == c
        invariant
            i <= v.len(),
            forall|k: int| 0 <= k < i ==> #[trigger] v@[k] == c,
        decreases v.len() - i,
    {
        i = i + 1;
    }
    proof {
        lemma_strip_leading_skip(v@, c, i as int);
    }
    let mut r: Vec<char> = Vec::new();
    let mut j: usize = i;
    while j < v.len()
        invariant
            i <= j <= v.len(),
            r@ == v@.subrange(i as int, j as int),
        decreases v.len() - j,
    {
        r.push(v[j]);
        j = j + 1;
        assert(v@.subrange(i as int, j as int) == v@.subrange(i as int, j - 1).push(v@[j - 1]));
    }
    assert(v@.subrange(i as int, v@.len() as int) == v@.skip(i as int));
    r
}

/// The text of a `Cookie` header for name/value pairs: `name=value`, joined by `; `.
pub open spec fn cookie_header_spec(pairs: Seq<(Seq<char>, Seq<char>)>) -> Seq<char> {
    join_with(pairs.map_values(|p: (Seq<char>, Seq<char>)| p.0 + "="@ + p.1), "; "@)
}

/// Whether a cookie is sent to `domain`: its own domain, without leading dots,
/// occurs in `domain`.
pub open spec fn cookie_applies(c: ScrappeyCookie, domain: Seq<char>) -> bool {
    contains_seq(domain, strip_leading(c.domain@, '.'))
}

/// The name/value pairs of the cookies that are sent to `domain`, in order.
pub open spec fn cookies_for(cookies: Seq<ScrappeyCookie>, domain: Seq<char>) -> Seq<(Seq<char>, Seq<char>)> {
    cookies.filter(|c: ScrappeyCookie| cookie_applies(c, domain)).map_values(
        |c: ScrappeyCookie| (c.name@, c.value@),
    )
}

/// The `Cookie` header for `domain` made of Scrappey's cookies: the cookies whose
/// domain (without leading dots) occurs in `domain`, as `name=value`, joined by `; `.
pub fn build_cookie_header(cookies: &Vec<ScrappeyCookie>, domain: &str) -> (r: String)
    ensures
        r@ == cookie_header_spec(cookies_for(cookies@, domain@)),
{
    let d = str_to_chars(domain);
    let ghost p = |c: ScrappeyCookie| cookie_applies(c, domain@);
    let ghost g = |c: ScrappeyCookie| (c.name@, c.value@);
    let ghost h = |q: (Seq<char>, Seq<char>)| q.0 + "="@ + q.1;
    let mut parts: Vec<String> = Vec::new();
    let mut i: usize = 0;
    while i < cookies.len()
        invariant
            i <= cookies@.len(),
            d@ == domain@,
            p == (|c: ScrappeyCookie| cookie_applies(c, domain@)),
            g == (|c: ScrappeyCookie| (c.name@, c.value@)),
            h == (|q: (Seq<char>, Seq<char>)| q.0 + "="@ + q.1),
            parts@.map_values(|s: String| s@) == cookies@.take(i as int).filter(p).map_values(g).map_values(h),
        decreases cookies@.len() - i,
    {
        let c = &cookies[i];
        let cd = str_to_chars(c.domain.as_str());
        let stripped = strip_leading_chars(&cd, '.');
        let ghost kept = cookies@.take(i as int).filter(p);
        assert(cookies@.take(i + 1) =~= cookies@.take(i as int).push(cookies@[i as int]));
        proof {
            cookies@.take(i as int).lemma_filter_push(cookies@[i as int], p);
        }
        if contains_chars(&d, &stripped) {
            let mut s = String::new();
            push_str(&mut s, c.name.as_str());
            push_str(&mut s, "=");
            push_str(&mut s, c.value.as_str());
            let ghost before = parts@;
            parts.push(s);
            assert(kept.push(*c).map_values(g).map_values(h) =~= kept.map_values(g).map_values(h).push(
                s@,
            ));
            assert(parts@.map_values(|s: String| s@) =~= before.map_values(|s: String| s@).push(
                s@,
            ));
        }
        i = i + 1;
    }
    assert(cookies@.take(cookies@.len() as int) =~= cookies@);
    let r = join_strings(&parts, "; ");
    assert(cookies_for(cookies@, domain@).map_values(h) =~= cookies@.filter(p).map_values(g).map_values(h));
    r
}

/// `s` without the leading repetitions of the nonempty prefix `p`.
pub open spec fn strip_prefixes(s: Seq<char>, p: Seq<char>) -> Seq<char>
    decreases s.len(),
{
    if p.len() > 0 && p.len() <= s.len() && s.take(p.len() as int) == p {
        strip_prefixes(s.skip(p.len() as int), p)
    } else {
        s
    }
}

/// The host of an `https://` URL: what precedes the first `/` once the leading
/// `https://` prefixes are removed.
pub open spec fn url_host_spec(url: Seq<char>) -> Seq<char> {
    split_on(strip_prefixes(url, "https://"@), '/')[0]
}

/// The host of an `https://` URL.
pub fn url_host(url: &str) -> (r: String)
    ensures
        r@ == url_host_spec(url@),
{
    let v = str_to_chars(url);
    let prefix = str_to_chars("https://");
    proof {
        reveal_strlit("https://");
    }
    let mut start: usize = 0;
    let n = v.len();
    assert(v@.skip(0) =~= v@);
    while matches_at(&v, &prefix, start)
        invariant
            start <= v@.len(),
            n == v@.len(),
            prefix@ == "https://"@,
            prefix@.len() == 8,
            strip_prefixes(v@.skip(start as int), prefix@) == strip_prefixes(v@, prefix@),
        decreases v@.len() - start,
    {
        assert(v@.skip(start as int).take(8) =~= v@.subrange(start as int, start + 8));
        assert(v@.skip(start as int).skip(8) =~= v@.skip(start + 8));
        start = start + 8;
    }
    proof {
        let t = v@.skip(start as int);
        if 8 <= t.len() {
            assert(t.take(8) =~= v@.subrange(start as int, start + 8));
        }
    }
    let rest = chars_range_to_string(&v, start, v.len());
    let rc = str_to_chars(rest.as_str());
    assert(rc@ =~= v@.skip(start as int));
    let pieces = split_chars(&rc, '/');
    proof {
        lemma_split_on_nonempty(rc@, '/');
    }
    chars_to_string(&pieces[0])
}

/// Whether `s` holds the character `c`.
pub open spec fn has_char(s: Seq<char>, c: char) -> bool {
    exists|i: int| 0 <= i < s.len() && s[i] == c
}

/// The index of the first `c` in `s` (when there is one).
pub open spec fn first_index_of(s: Seq<char>, c: char) -> int {
    choose|i: int| 0 <= i < s.len() && s[i] == c && forall|k: int| 0 <= k < i ==> s[k] != c
}

/// The index of the last `c` in `s` (when there is one).
pub open spec fn last_index_of(s: Seq<char>, c: char) -> int {
    choose|i: int| 0 <= i < s.len() && s[i] == c && forall|k: int| i < k < s.len() ==> s[k] != c
}

/// The JSON text inside an answer: from the first `{` to the last `}` when it
/// holds both, else the whole answer.
pub open spec fn token_json_text(raw: Seq<char>) -> Seq<char> {
    if has_char(raw, '{') && has_char(raw, '}') {
        raw.subrange(first_index_of(raw, '{'), last_index_of(raw, '}') + 1)
    } else {
        raw
    }
}

/// Whether the JSON text of an answer can be cut out: when it holds both braces,
/// the last `}` does not stand more than one place before the first `{`.
pub open spec fn token_json_cuttable(raw: Seq<char>) -> bool {
    has_char(raw, '{') && has_char(raw, '}') ==> first_index_of(raw, '{') <= last_index_of(raw, '}')
        + 1
}

/// The value of a text field of the JSON object in a text, as `serde_json` reads
/// it: `None` when the text is not JSON, `Some(None)` when the field is missing or
/// not a string; a function of the two texts alone.
pub uninterp spec fn json_field_str(text: Seq<char>, key: Seq<char>) -> Option<Option<Seq<char>>>;

/// Parses `text` with `serde_json::from_str` and reads the string field `key`
/// (`Value::get`, `Value::as_str`).  Only the name `json_field_str` is claimed of
/// the result; the error text is `serde_json`'s message.
#[verifier::external_body]
fn json_string_field(text: &str, key: &str) -> (r: Result<Option<String>, String>)
    ensures
        match r {
            Ok(Some(v)) => json_field_str(text@, key@) == Some(Some(v@)),
            Ok(None) => json_field_str(text@, key@) == Some(None::<Seq<char>>),
            Err(_) => json_field_str(text@, key@) is None,
        },
{
    match serde_json::from_str::<serde_json::Value>(text) {
        Ok(v) => Ok(v.get(key).and_then(|h| h.as_str()).map(|s| s.to_string())),
        Err(e) => Err(e.to_string()),
    }
}

/// Why no download token was found.
#[derive(Debug)]
pub enum TokenError {
    /// The answer is not JSON (`serde_json`'s message).
    Json(String),
    /// The JSON has no `token` text.
    Missing,
}

/// The characters of an answer, with the index of its first `{` and of its last
/// `}` (the length where there is none).
fn brace_positions(raw: &str) -> (r: (Vec<char>, usize, usize))
    ensures
        r.0@ == raw@,
        (r.1 < raw@.len() && r.2 < raw@.len()) == (has_char(raw@, '{') && has_char(raw@, '}')),
        r.1 < raw@.len() && r.2 < raw@.len() ==> r.1 == first_index_of(raw@, '{') && r.2
            == last_index_of(raw@, '}'),
{
    let v = str_to_chars(raw);
    let mut first: usize = v.len();
    let mut i: usize = 0;
    while i < v.len()
        invariant
            i <= v@.len(),
            first == v@.len() || (first < i && v@[first as int] == '{'),
            forall|k: int| 0 <= k < i && k < first ==> v@[k] != '{',
        decreases v@.len() - i,
    {
        if first == v.len() && v[i] == '{' {
            first = i;
        }
        i = i + 1;
    }
    let mut last: usize = v.len();
    let mut j: usize = v.len();
    while j > 0
        invariant
            j <= v@.len(),
            last == v@.len() || (j <= last < v@.len() && v@[last as int] == '}'),
            forall|k: int| j <= k < v@.len() && (last == v@.len() || k > last) ==> v@[k] != '}',
        decreases j,
    {
        j = j - 1;
        if last == v.len() && v[j] == '}' {
            last = j;
        }
    }
    proof {
        if first < v.len() && last < v.len() {
            assert(has_char(raw@, '{') && has_char(raw@, '}'));
            let f = first_index_of(raw@, '{');
            let l = last_index_of(raw@, '}');
            assert(f == first) by {
                if f < first {
                    assert(v@[f] != '{');
                }
                if first < f {
                    assert(raw@[first as int] != '{');
                }
            }
            assert(l == last) by {
                if l > last {
                    assert(v@[l] != '}');
                }
                if last > l {
                    assert(raw@[last as int] != '}');
                }
            }
        } else {
            if has_char(raw@, '{') {
                let w = choose|w: int| 0 <= w < raw@.len() && raw@[w] == '{';
                assert(v@[w] == '{');
            }
            if has_char(raw@, '}') {
                let w = choose|w: int| 0 <= w < raw@.len() && raw@[w] == '}';
                assert(v@[w] == '}');
            }
        }
    }
    (v, first, last)
}

/// Whether the JSON text of an answer can be cut out (see `token_json_cuttable`).
pub fn token_json_is_cuttable(raw: &str) -> (b: bool)
    ensures
        b == token_json_cuttable(raw@),
{
    let (v, first, last) = brace_positions(raw);
    if first < v.len() && last < v.len() {
        first <= last + 1
    } else {
        true
    }
}

/// The download token in an answer of the tracker, given as plain JSON or
/// wrapped in HTML: the `token` field of the JSON between the first `{` and the
/// last `}`.
pub fn extract_token_from_json(raw: &str) -> (r: Result<String, TokenError>)
    requires
        token_json_cuttable(raw@),
    ensures
        match json_field_str(token_json_text(raw@), "token"@) {
            Some(Some(t)) => r is Ok && r->Ok_0@ == t,
            Some(None) => r matches Err(TokenError::Missing),
            None => r matches Err(TokenError::Json(_)),
        },
{
    let (v, first, last) = brace_positions(raw);
    let text = if first < v.len() && last < v.len() {
        chars_range_to_string(&v, first, last + 1)
    } else {
        raw.to_owned()
    };
    match json_string_field(text.as_str(), "token") {
        Ok(Some(t)) => Ok(t),
        Ok(None) => Err(TokenError::Missing),
        Err(e) => Err(TokenError::Json(e)),
    }
}

/// The URL that starts the download timer on `domain`.
pub fn token_url(domain: &str) -> (r: String)
    ensures
        r@ == "https://"@ + domain@ + "/engine/start_download_timer"@,
{
    let mut r = String::from_str("https://");
    push_str(&mut r, domain);
    push_str(&mut r, "/engine/start_download_timer");
    r
}

/// The form body that asks for the download token of torrent `id`.
pub fn token_request_body(id: usize) -> (r: String)
    ensures
        r@ == "torrent_id="@ + decimal(id as nat),
{
    let mut r = String::from_str("torrent_id=");
    let s = usize_to_string(id);
    push_str(&mut r, s.as_str());
    r
}

/// The signed URL of the torrent file of torrent `id` on `domain`, with its token.
pub fn signed_download_url(domain: &str, id: usize, token: &str) -> (r: String)
    ensures
        r@ == "https://"@ + domain@ + "/engine/download_torrent?id="@ + decimal(id as nat)
            + "&token="@ + token@,
{
    let mut r = String::from_str("https://");
    push_str(&mut r, domain);
    push_str(&mut r, "/engine/download_torrent?id=");
    let s = usize_to_string(id);
    push_str(&mut r, s.as_str());
    push_str(&mut r, "&token=");
    push_str(&mut r, token);
    r
}

/// The `Referer` sent with the download of the torrent file.
pub fn referer(domain: &str) -> (r: String)
    ensures
        r@ == "https://"@ + domain@ + "/"@,
{
    let mut r = String::from_str("https://");
    push_str(&mut r, domain);
    push_str(&mut r, "/");
    r
}

/// The `Content-Disposition` of the torrent file of torrent `id`.
pub fn attachment_disposition(id: usize) -> (r: String)
    ensures
        r@ == "attachment; filename=\""@ + decimal(id as nat) + ".torrent\""@,
{
    let mut r = String::from_str("attachment; filename=\"");
    let s = usize_to_string(id);
    push_str(&mut r, s.as_str());
    push_str(&mut r, ".torrent\"");
    r
}

/// How many seconds to wait between the token and the download: 5 in turbo
/// mode, 35 otherwise.
pub fn download_wait_secs(turbo_enabled: Option<bool>) -> (r: u64)
    ensures
        r == if turbo_enabled == Some(true) {
            5u64
        } else {
            35u64
        },
{
    match turbo_enabled {
        Some(true) => 5,
        _ => 35,
    }
}

/// Checks that downloaded bytes look like a torrent file: nonempty and starting
/// with `d` (a bencoded dictionary).
pub fn check_torrent_bytes(bytes: &[u8]) -> (r: Result<(), String>)
    ensures
        bytes@.len() == 0 ==> r is Err && r->Err_0@ == "Downloaded torrent file is empty"@,
        bytes@.len() > 0 && bytes@[0] != 100 ==> r is Err && r->Err_0@
            == "Downloaded content is not a valid torrent file"@,
        bytes@.len() > 0 && bytes@[0] == 100 ==> r is Ok,
{
    if bytes.len() == 0 {
        return Err(String::from_str("Downloaded torrent file is empty"));
    }
    if bytes[0] != 100 {
        return Err(String::from_str("Downloaded content is not a valid torrent file"));
    }
    Ok(())
}

/// The bytes that the standard base64 engine of the `base64` crate decodes from
/// a text, if it decodes; a function of the text alone.
pub uninterp spec fn base64_standard_decoded(s: Seq<char>) -> Option<Seq<u8>>;

/// Calls `base64::engine::general_purpose::STANDARD.decode`.  Only the name
/// `base64_standard_decoded` is claimed of the result.
#[verifier::external_body]
fn base64_decode(s: &str) -> (r: Option<Vec<u8>>)
    ensures
        match r {
            Some(b) => base64_standard_decoded(s@) == Some(b@),
            None => base64_standard_decoded(s@) is None,
        },
{
    base64::engine::general_purpose::STANDARD.decode(s).ok()
}

/// The torrent file in a page fetched through Scrappey: the base64-decoded body
/// when it decodes to something, else the UTF-8 bytes of the body itself, which
/// must not be empty.
pub fn torrent_bytes_from_scrappey(body: &str) -> (r: Result<Vec<u8>, String>)
    ensures
        match base64_standard_decoded(body@) {
            Some(b) if b.len() > 0 => r is Ok && r->Ok_0@ == b,
            _ => if body@.len() > 0 {
                r is Ok && r->Ok_0@ == encode_utf8(body@)
            } else {
                r is Err && r->Err_0@ == "Scrappey returned empty response for torrent download"@
            },
        },
{
    match base64_decode(body) {
        Some(b) => {
            if b.len() > 0 {
                return Ok(b);
            }
        },
        None => {},
    }
    let src = body.as_bytes();
    let mut bytes: Vec<u8> = Vec::new();
    let mut i: usize = 0;
    while i < src.len()
        invariant
            i <= src@.len(),
            bytes@ == src@.take(i as int),
        decreases src@.len() - i,
    {
        bytes.push(src[i]);
        i = i + 1;
        assert(src@.take(i as int) =~= src@.take(i - 1).push(src@[i - 1]));
    }
    assert(src@.take(src@.len() as int) =~= src@);
    if bytes.len() == 0 {
        proof {
            if body@.len() > 0 {
                vstd::utf8::encode_utf8_first_scalar(body@);
            }
        }
        return Err(String::from_str("Scrappey returned empty response for torrent download"));
    }
    proof {
        if body@.len() == 0 {
            assert(encode_utf8(body@) =~= Seq::<u8>::empty());
        }
    }
    Ok(bytes)
}

/// What to do after a direct download of the torrent file.
#[derive(Debug, Clone, Copy, PartialEq, Eq, Structural)]
pub enum BinaryStep {
    /// The download succeeded: read its bytes.
    ReadBytes,
    /// Redirected (HTTP 302): look at the remaining downloads to explain the failure.
    CheckRemaining,
    /// Get cookies from Scrappey's browser and request the file again.
    UseScrappey,
    /// The download failed and Scrappey is not configured.
    FailedWithoutScrappey,
}

/// Chooses the step after a direct download of the torrent file that got
/// `status` (or failed, for `None`).
pub fn binary_download_step(status: Option<u16>, scrappey_available: bool) -> (r: BinaryStep)
    ensures
        r == match status {
            Some(s) if is_success_status(s) => BinaryStep::ReadBytes,
            Some(s) if s == 302 => BinaryStep::CheckRemaining,
            _ => if scrappey_available {
                BinaryStep::UseScrappey
            } else {
                BinaryStep::FailedWithoutScrappey
            },
        },
{
    match status {
        Some(s) => {
            if 200 <= s && s <= 299 {
                return BinaryStep::ReadBytes;
            }
            if s == 302 {
                return BinaryStep::CheckRemaining;
            }
        },
        None => {},
    }
    if scrappey_available {
        BinaryStep::UseScrappey
    } else {
        BinaryStep::FailedWithoutScrappey
    }
}

/// The error reported when a download was redirected, from the remaining
/// downloads (or the failure to read them).
pub fn redirected_download_error(remaining: Result<u16, String>) -> (r: String)
    ensures
        r@ == match remaining {
            Ok(n) => if n == 0 {
                "No remaining downloads"@
            } else {
                "Failed to download torrent, but you have remaining downloads."@
            },
            Err(_) => "Failed to download torrent and check remaining downloads."@,
        },
{
    match remaining {
        Ok(0) => String::from_str("No remaining downloads"),
        Ok(_) => String::from_str("Failed to download torrent, but you have remaining downloads."),
        Err(_) => String::from_str("Failed to download torrent and check remaining downloads."),
    }
}

/// What to do after posting for the download token directly.
#[derive(Debug, Clone, Copy, PartialEq, Eq, Structural)]
pub enum TokenStep {
    /// The post succeeded: read the token from its answer.
    ReadToken,
    /// Post through Scrappey.
    UseScrappey,
    /// Blocked, and Scrappey is not configured.
    FailedWithoutScrappey,
}

/// Chooses the step after posting for the download token directly.
pub fn token_step(status: Option<u16>, scrappey_available: bool) -> (r: TokenStep)
    ensures
        r == match status {
            Some(s) if is_success_status(s) => TokenStep::ReadToken,
            _ => if scrappey_available {
                TokenStep::UseScrappey
            } else {
                TokenStep::FailedWithoutScrappey
            },
        },
{
    match status {
        Some(s) => {
            if 200 <= s && s <= 299 {
                return TokenStep::ReadToken;
            }
        },
        None => {},
    }
    if scrappey_available {
        TokenStep::UseScrappey
    } else {
        TokenStep::FailedWithoutScrappey
    }
}

} // verus!
