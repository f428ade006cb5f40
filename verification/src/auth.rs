//! Logging in: the saved session cookies, and the decisions taken along the
//! way (which route to log in by, and how the tracker's answers are judged).
use vstd::prelude::*;
use crate::rest::torrent::cookie_header_spec;
use crate::scrappey::is_success_status;
use crate::text::{
    chars_to_string, contains_seq, is_whitespace, join_with, lemma_split_on_nonempty, push_str,
    split_chars, split_on, str_contains, str_to_chars, trim, trim_chars, trim_end, trim_start,
};

verus! {

/// The name and value of one entry of a saved session: the trimmed entry, when
/// it is nonempty and has exactly one `=`, split there and trimmed.
pub open spec fn session_entry(piece: Seq<char>) -> Option<(Seq<char>, Seq<char>)> {
    let t = trim(piece);
    if t.len() == 0 {
        None
    } else {
        let q = split_on(t, '=');
        if q.len() == 2 {
            Some((trim(q[0]), trim(q[1])))
        } else {
            None
        }
    }
}

/// The cookies of a saved session: its `;`-separated entries, read by `session_entry`.
pub open spec fn session_cookies_spec(content: Seq<char>) -> Seq<(Seq<char>, Seq<char>)> {
    split_on(content, ';').filter_map(|p: Seq<char>| session_entry(p))
}

/// The views of name/value pairs.
pub open spec fn pairs_view(v: Seq<(String, String)>) -> Seq<(Seq<char>, Seq<char>)> {
    v.map_values(|p: (String, String)| (p.0@, p.1@))
}

/// Reads the cookies of a saved session (the text of a `Cookie` header).
pub fn parse_session_cookies(content: &str) -> (r: Vec<(String, String)>)
    ensures
        pairs_view(r@) == session_cookies_spec(content@),
{
    let v = str_to_chars(content);
    let pieces = split_chars(&v, ';');
    let ghost sp = split_on(v@, ';');
    let ghost f = |p: Seq<char>| session_entry(p);
    let mut out: Vec<(String, String)> = Vec::new();
    let mut i: usize = 0;
    while i < pieces.len()
        invariant
            i <= pieces@.len(),
            pieces@.len() == sp.len(),
            forall|k: int| 0 <= k < pieces@.len() ==> #[trigger] pieces@[k]@ == sp[k],
            f == (|p: Seq<char>| session_entry(p)),
            pairs_view(out@) == sp.take(i as int).filter_map(f),
        decreases pieces@.len() - i,
    {
        proof {
            sp.lemma_filter_map_take_succ(f, i as int);
        }
        let ghost before = out@;
        let t = trim_chars(&pieces[i]);
        if t.len() > 0 {
            let parts = split_chars(&t, '=');
            if parts.len() == 2 {
                let name = trim_chars(&parts[0]);
                let value = trim_chars(&parts[1]);
                let pair = (chars_to_string(&name), chars_to_string(&value));
                out.push(pair);
                assert(f(sp[i as int]) == Some((pair.0@, pair.1@)));
                assert(pairs_view(out@) =~= pairs_view(before) + seq![(pair.0@, pair.1@)]);
            } else {
                assert(f(sp[i as int]) is None);
            }
        } else {
            assert(f(sp[i as int]) is None);
        }
        i = i + 1;
    }
    assert(sp.take(sp.len() as int) == sp);
    out
}

/// The path of the file that keeps the session of a user.
pub fn session_file_path(username: &str) -> (r: String)
    ensures
        r@ == "sessions/"@ + username@ + ".cookies"@,
{
    let mut r = String::from_str("sessions/");
    push_str(&mut r, username);
    push_str(&mut r, ".cookies");
    r
}

/// Why logging in cannot go on.
#[derive(Debug, Clone, Copy, PartialEq, Eq, Structural)]
pub enum LoginBlock {
    /// Cloudflare blocked the login page and Scrappey is not configured.
    CloudflareWithoutScrappey,
    /// The login page set no `ygg_` cookie and Scrappey is not configured.
    NoCookieWithoutScrappey,
}

/// How to log in once the login page was requested.
#[derive(Debug, Clone, Copy, PartialEq, Eq, Structural)]
pub enum LoginRoute {
    /// Post the credentials directly.
    PostCredentials,
    /// Let Scrappey's browser do the whole login.
    Scrappey,
    /// Give up.
    Blocked(LoginBlock),
}

/// The route of a login, given the status of the login page (`None` when the
/// request failed), whether it set a `ygg_` cookie, and whether Scrappey is
/// configured: a failed or unsuccessful page, or one without the cookie, needs
/// Scrappey.
pub open spec fn login_route_spec(
    page_status: Option<u16>,
    has_ygg_cookie: bool,
    scrappey_configured: bool,
) -> LoginRoute {
    let page_ok = match page_status {
        Some(s) => is_success_status(s),
        None => false,
    };
    let needs_scrappey = !page_ok;
    let cookie = page_ok && has_ygg_cookie;
    if needs_scrappey || !cookie {
        if scrappey_configured {
            LoginRoute::Scrappey
        } else if needs_scrappey {
            LoginRoute::Blocked(LoginBlock::CloudflareWithoutScrappey)
        } else {
            LoginRoute::Blocked(LoginBlock::NoCookieWithoutScrappey)
        }
    } else {
        LoginRoute::PostCredentials
    }
}

/// A login gives up at the login page only without Scrappey: with Scrappey
/// configured, a login page that failed, was not successful or set no `ygg_`
/// cookie hands the login to Scrappey's browser; the credentials are posted
/// directly exactly when the page succeeded and set the cookie.
pub proof fn lemma_login_route_uses_scrappey_when_configured(
    page_status: Option<u16>,
    has_ygg_cookie: bool,
    scrappey_configured: bool,
)
    ensures
        ({
            let page_ok = match page_status {
                Some(s) => is_success_status(s),
                None => false,
            };
            let r = login_route_spec(page_status, has_ygg_cookie, scrappey_configured);
            &&& r is Blocked ==> !scrappey_configured
            &&& scrappey_configured && !(page_ok && has_ygg_cookie) ==> r is Scrappey
            &&& (r is PostCredentials <==> page_ok && has_ygg_cookie)
        }),
{
}

/// Chooses how to log in.
pub fn login_route(page_status: Option<u16>, has_ygg_cookie: bool, scrappey_configured: bool) -> (r:
    LoginRoute)
    ensures
        r == login_route_spec(page_status, has_ygg_cookie, scrappey_configured),
{
    let page_ok = match page_status {
        Some(s) => 200 <= s && s <= 299,
        None => false,
    };
    let needs_scrappey = !page_ok;
    let cookie = page_ok && has_ygg_cookie;
    if needs_scrappey || !cookie {
        if scrappey_configured {
            LoginRoute::Scrappey
        } else if needs_scrappey {
            LoginRoute::Blocked(LoginBlock::CloudflareWithoutScrappey)
        } else {
            LoginRoute::Blocked(LoginBlock::NoCookieWithoutScrappey)
        }
    } else {
        LoginRoute::PostCredentials
    }
}

/// Why the tracker refused posted credentials.
#[derive(Debug, Clone, Copy, PartialEq, Eq, Structural)]
pub enum LoginRefusal {
    /// HTTP 401: `Invalid username or password`.
    InvalidCredentials,
    /// Any other unsuccessful status: `Failed to login: <status>`.
    Status(u16),
}

/// The outcome of posting the credentials, from the status of the answer.
pub fn login_post_outcome(status: u16) -> (r: Result<(), LoginRefusal>)
    ensures
        is_success_status(status) ==> r is Ok,
        !is_success_status(status) && status == 401 ==> r == Err::<(), LoginRefusal>(
            LoginRefusal::InvalidCredentials,
        ),
        !is_success_status(status) && status != 401 ==> r == Err::<(), LoginRefusal>(
            LoginRefusal::Status(status),
        ),
{
    if 200 <= status && status <= 299 {
        Ok(())
    } else if status == 401 {
        Err(LoginRefusal::InvalidCredentials)
    } else {
        Err(LoginRefusal::Status(status))
    }
}

/// Whether a login through Scrappey went through: its browser must have left
/// the login page, i.e. the final URL holds no `/auth/login`.
pub fn scrappey_login_succeeded(final_url: &str) -> (b: bool)
    ensures
        b == !contains_seq(final_url@, "/auth/login"@),
{
    !str_contains(final_url, "/auth/login")
}

/// Whether a saved session can be resumed: the check request got a successful
/// status (`None`: it failed).
pub fn session_still_valid(status: Option<u16>) -> (b: bool)
    ensures
        b == match status {
            Some(s) => is_success_status(s),
            None => false,
        },
{
    match status {
        Some(s) => 200 <= s && s <= 299,
        None => false,
    }
}

/// Splitting at a separator that joins two texts splits each of them.
proof fn lemma_split_on_concat(x: Seq<char>, y: Seq<char>, sep: char)
    ensures
        split_on(x + seq![sep] + y, sep) == split_on(x, sep) + split_on(y, sep),
    decreases y.len(),
{
    lemma_split_on_nonempty(x, sep);
    if y.len() == 0 {
        assert(x + seq![sep] + y =~= x.push(sep));
        assert((x.push(sep)).drop_last() =~= x);
        assert(split_on(y, sep) =~= seq![Seq::<char>::empty()]);
        assert(split_on(x, sep).push(Seq::<char>::empty()) =~= split_on(x, sep) + split_on(y, sep));
    } else {
        let w = x + seq![sep] + y;
        let yi = y.drop_last();
        lemma_split_on_concat(x, yi, sep);
        lemma_split_on_nonempty(yi, sep);
        assert(w.drop_last() =~= x + seq![sep] + yi);
        assert(w.last() == y.last());
        let a = split_on(x, sep);
        let b = split_on(yi, sep);
        if y.last() == sep {
            assert((a + b).push(Seq::<char>::empty()) =~= a + b.push(Seq::<char>::empty()));
        } else {
            let ab = a + b;
            assert(ab.update(ab.len() - 1, ab.last().push(y.last())) =~= a + b.update(
                b.len() - 1,
                b.last().push(y.last()),
            ));
        }
    }
}

/// A text without the separator is a single piece.
proof fn lemma_split_on_without_sep(y: Seq<char>, sep: char)
    requires
        !y.contains(sep),
    ensures
        split_on(y, sep) == seq![y],
    decreases y.len(),
{
    if y.len() == 0 {
        assert(y =~= Seq::<char>::empty());
        assert(split_on(y, sep) =~= seq![y]);
    } else {
        let yi = y.drop_last();
        assert(!yi.contains(sep)) by {
            if yi.contains(sep) {
                let k = choose|k: int| 0 <= k < yi.len() && yi[k] == sep;
                assert(y[k] == sep);
            }
        }
        lemma_split_on_without_sep(yi, sep);
        assert(y.last() != sep) by {
            assert(y[y.len() - 1] == y.last());
        }
        assert(y =~= yi.push(y.last()));
        assert(seq![yi].update(0, yi.push(y.last())) =~= seq![y]);
    }
}

proof fn lemma_trim_start_len(s: Seq<char>)
    ensures
        trim_start(s).len() <= s.len(),
        s.len() > 0 && is_whitespace(s[0]) ==> trim_start(s).len() < s.len(),
    decreases s.len(),
{
    if s.len() > 0 && is_whitespace(s[0]) {
        lemma_trim_start_len(s.drop_first());
    }
}

proof fn lemma_trim_end_len(s: Seq<char>)
    ensures
        trim_end(s).len() <= s.len(),
        s.len() > 0 && is_whitespace(s.last()) ==> trim_end(s).len() < s.len(),
    decreases s.len(),
{
    if s.len() > 0 && is_whitespace(s.last()) {
        lemma_trim_end_len(s.drop_last());
    }
}

/// A nonempty text equal to its trimmed form neither begins nor ends with whitespace.
proof fn lemma_trimmed_ends(s: Seq<char>)
    requires
        trim(s) == s,
        s.len() > 0,
    ensures
        !is_whitespace(s[0]),
        !is_whitespace(s.last()),
{
    lemma_trim_start_len(s);
    lemma_trim_end_len(trim_start(s));
    if !is_whitespace(s[0]) {
        assert(trim_start(s) == s);
        lemma_trim_end_len(s);
    }
}

/// A text that neither begins nor ends with whitespace is its own trimmed form,
/// also behind one leading space.
proof fn lemma_trim_spaced(p: Seq<char>)
    requires
        p.len() > 0,
        !is_whitespace(p[0]),
        !is_whitespace(p.last()),
    ensures
        trim(p) == p,
        trim(seq![' '] + p) == p,
{
    assert(trim_start(p) == p);
    assert(trim_end(p) == p);
    let q = seq![' '] + p;
    assert(q.drop_first() =~= p);
    assert(is_whitespace(q[0]));
    assert(trim_start(q) == trim_start(p));
}

/// The text of one cookie of a header.
pub open spec fn cookie_text(p: (Seq<char>, Seq<char>)) -> Seq<char> {
    p.0 + "="@ + p.1
}

/// A cookie name or value that survives a `Cookie` header: no `;` or `=` in it,
/// and no surrounding whitespace.
pub open spec fn plain_cookie_part(s: Seq<char>) -> bool {
    !s.contains(';') && !s.contains('=') && trim(s) == s
}

proof fn lemma_entry_of_cookie_text(p: (Seq<char>, Seq<char>), spaced: bool)
    requires
        plain_cookie_part(p.0),
        plain_cookie_part(p.1),
    ensures
        session_entry(if spaced {
            seq![' '] + cookie_text(p)
        } else {
            cookie_text(p)
        }) == Some(p),
        !cookie_text(p).contains(';'),
{
    reveal_strlit("=");
    let t = cookie_text(p);
    assert("="@ =~= seq!['=']);
    assert(t =~= p.0 + seq!['='] + p.1);
    assert(!t.contains(';')) by {
        if t.contains(';') {
            let k = choose|k: int| 0 <= k < t.len() && t[k] == ';';
            if k < p.0.len() {
                assert(p.0[k] == ';');
            } else if k > p.0.len() {
                assert(p.1[k - p.0.len() - 1] == ';');
            }
        }
    }
    // The cookie text neither begins nor ends with whitespace.
    if p.0.len() > 0 {
        lemma_trimmed_ends(p.0);
        assert(t[0] == p.0[0]);
    } else {
        assert(t[0] == '=');
    }
    if p.1.len() > 0 {
        lemma_trimmed_ends(p.1);
        assert(t.last() == p.1.last());
    } else {
        assert(t.last() == '=');
    }
    lemma_trim_spaced(t);
    lemma_split_on_concat(p.0, p.1, '=');
    lemma_split_on_without_sep(p.0, '=');
    lemma_split_on_without_sep(p.1, '=');
    assert(split_on(t, '=') =~= seq![p.0, p.1]);
}

/// The pieces into which `;` cuts a header: the first cookie text, then the
/// others behind their space.
pub open spec fn header_pieces(ts: Seq<Seq<char>>) -> Seq<Seq<char>> {
    Seq::new(ts.len(), |i: int| if i == 0 {
        ts[0]
    } else {
        seq![' '] + ts[i]
    })
}

proof fn lemma_split_header(ts: Seq<Seq<char>>)
    requires
        ts.len() > 0,
        forall|i: int| 0 <= i < ts.len() ==> !(#[trigger] ts[i]).contains(';'),
    ensures
        split_on(join_with(ts, "; "@), ';') == header_pieces(ts),
    decreases ts.len(),
{
    reveal_strlit("; ");
    assert("; "@ =~= seq![';', ' ']);
    if ts.len() == 1 {
        lemma_split_on_without_sep(ts[0], ';');
        assert(header_pieces(ts) =~= seq![ts[0]]);
    } else {
        let init = ts.drop_last();
        lemma_split_header(init);
        let j = join_with(init, "; "@);
        assert(join_with(ts, "; "@) =~= j + seq![';'] + (seq![' '] + ts.last()));
        lemma_split_on_concat(j, seq![' '] + ts.last(), ';');
        assert(!(seq![' '] + ts.last()).contains(';')) by {
            let u = seq![' '] + ts.last();
            if u.contains(';') {
                let k = choose|k: int| 0 <= k < u.len() && u[k] == ';';
                assert(k > 0);
                assert(ts.last()[k - 1] == ';');
                assert(ts[ts.len() - 1] == ts.last());
            }
        }
        lemma_split_on_without_sep(seq![' '] + ts.last(), ';');
        assert(header_pieces(ts) =~= header_pieces(init) + seq![seq![' '] + ts.last()]);
    }
}

proof fn lemma_read_pieces(pairs: Seq<(Seq<char>, Seq<char>)>, n: int)
    requires
        0 <= n <= pairs.len(),
        forall|i: int| 0 <= i < pairs.len() ==> plain_cookie_part((#[trigger] pairs[i]).0)
            && plain_cookie_part(pairs[i].1),
    ensures
        header_pieces(pairs.map_values(|p: (Seq<char>, Seq<char>)| cookie_text(p))).take(n).filter_map(
            |p: Seq<char>| session_entry(p),
        ) == pairs.take(n),
    decreases n,
{
    let hp = header_pieces(pairs.map_values(|p: (Seq<char>, Seq<char>)| cookie_text(p)));
    let f = |p: Seq<char>| session_entry(p);
    if n == 0 {
        assert(hp.take(0) =~= Seq::<Seq<char>>::empty());
        assert(pairs.take(0) =~= Seq::<(Seq<char>, Seq<char>)>::empty());
    } else {
        lemma_read_pieces(pairs, n - 1);
        hp.lemma_filter_map_take_succ(f, n - 1);
        lemma_entry_of_cookie_text(pairs[n - 1], n - 1 > 0);
        assert(hp[n - 1] == if n - 1 > 0 {
            seq![' '] + cookie_text(pairs[n - 1])
        } else {
            cookie_text(pairs[n - 1])
        });
        assert(pairs.take(n) =~= pairs.take(n - 1) + seq![pairs[n - 1]]);
    }
}

/// Reading back a `Cookie` header gives its cookies: the session file that a
/// header is saved to restores the same names and values, as long as they hold
/// no `;` or `=` and no surrounding whitespace.
pub proof fn lemma_cookie_header_roundtrip(pairs: Seq<(Seq<char>, Seq<char>)>)
    requires
        forall|i: int| 0 <= i < pairs.len() ==> plain_cookie_part((#[trigger] pairs[i]).0)
            && plain_cookie_part(pairs[i].1),
    ensures
        session_cookies_spec(cookie_header_spec(pairs)) == pairs,
{
    let ts = pairs.map_values(|p: (Seq<char>, Seq<char>)| cookie_text(p));
    assert(pairs.map_values(|p: (Seq<char>, Seq<char>)| p.0 + "="@ + p.1) =~= ts);
    if pairs.len() == 0 {
        assert(join_with(ts, "; "@) =~= Seq::<char>::empty());
        assert(split_on(Seq::<char>::empty(), ';') =~= seq![Seq::<char>::empty()]);
        let f = |p: Seq<char>| session_entry(p);
        assert(seq![Seq::<char>::empty()].drop_last() =~= Seq::<Seq<char>>::empty());
        assert(trim(Seq::<char>::empty()) =~= Seq::<char>::empty());
        assert(session_entry(Seq::<char>::empty()) is None);
        assert(f(seq![Seq::<char>::empty()].last()) is None);
        assert(Seq::<Seq<char>>::empty().filter_map(f) =~= Seq::<(Seq<char>, Seq<char>)>::empty());
        assert(seq![Seq::<char>::empty()].filter_map(f) =~= Seq::<(Seq<char>, Seq<char>)>::empty());
    } else {
        assert forall|i: int| 0 <= i < ts.len() implies !(#[trigger] ts[i]).contains(';') by {
            lemma_entry_of_cookie_text(pairs[i], false);
        }
        lemma_split_header(ts);
        lemma_read_pieces(pairs, pairs.len() as int);
        assert(header_pieces(ts).take(pairs.len() as int) =~= header_pieces(ts));
        assert(pairs.take(pairs.len() as int) =~= pairs);
    }
}

} // verus!
