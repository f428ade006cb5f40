//! The Scrappey fallback: its answers, the solutions taken from them, and when
//! a page is fetched through it.
use vstd::prelude::*;
use crate::text::{push_str, str_eq};

verus! {

/// An answer of the Scrappey API.
#[derive(Debug)]
pub struct ScrappeyResponse {
    pub solution: Option<ScrappeyRawSolution>,
    pub data: Option<String>,
    pub session: Option<String>,
    pub error: Option<String>,
}

/// The solution part of a Scrappey answer, as sent.
#[derive(Debug, Clone)]
pub struct ScrappeyRawSolution {
    pub verified: bool,
    pub current_url: String,
    pub status_code: u16,
    pub user_agent: String,
    pub response: String,
    pub cookies: Vec<ScrappeyRawCookie>,
    pub cookie_string: String,
    pub inner_text: String,
}

/// A cookie of a Scrappey solution, as sent.
#[derive(Debug, Clone)]
pub struct ScrappeyRawCookie {
    pub name: String,
    pub value: String,
    pub domain: String,
    pub path: String,
}

/// The page that Scrappey fetched, with the cookies and user agent of its browser.
#[derive(Debug, Clone)]
pub struct ScrappeySolution {
    pub url: String,
    pub status: u16,
    pub cookies: Vec<ScrappeyCookie>,
    pub user_agent: String,
    pub response: String,
}

/// A cookie of a Scrappey solution.
#[derive(Debug, Clone)]
pub struct ScrappeyCookie {
    pub name: String,
    pub value: String,
    pub domain: String,
    pub path: String,
}

/// The cookie that a raw cookie becomes: the same, with `/` for an empty path.
pub open spec fn cookie_of(raw: ScrappeyRawCookie, c: ScrappeyCookie) -> bool {
    &&& c.name@ == raw.name@
    &&& c.value@ == raw.value@
    &&& c.domain@ == raw.domain@
    &&& c.path@ == if raw.path@.len() == 0 {
        "/"@
    } else {
        raw.path@
    }
}

/// The solution that a raw solution becomes.
pub open spec fn solution_of(raw: ScrappeyRawSolution, s: ScrappeySolution) -> bool {
    &&& s.url@ == raw.current_url@
    &&& s.status == raw.status_code
    &&& s.user_agent@ == raw.user_agent@
    &&& s.response@ == raw.response@
    &&& s.cookies@.len() == raw.cookies@.len()
    &&& forall|i: int| 0 <= i < raw.cookies@.len() ==> cookie_of(#[trigger] raw.cookies@[i], s.cookies@[i])
}

impl ScrappeyCookie {
    /// The cookie that a raw cookie becomes: an empty path is read as `/`.
    pub fn from_raw(c: ScrappeyRawCookie) -> (r: ScrappeyCookie)
        ensures
            cookie_of(c, r),
    {
        let path = if c.path.as_str().is_empty() {
            String::from_str("/")
        } else {
            c.path
        };
        ScrappeyCookie { name: c.name, value: c.value, domain: c.domain, path }
    }
}

impl ScrappeySolution {
    /// The solution that a raw solution becomes.
    pub fn from(raw: ScrappeyRawSolution) -> (r: ScrappeySolution)
        ensures
            solution_of(raw, r),
    {
        let ghost rc = raw.cookies@;
        let mut rest = raw.cookies;
        let mut cookies: Vec<ScrappeyCookie> = Vec::new();
        let total = rest.len();
        assert(rc.len() == total);
        while rest.len() > 0
            invariant
                cookies@.len() + rest@.len() == rc.len(),
                rc.len() <= usize::MAX,
                rest@ == rc.skip(cookies@.len() as int),
                forall|i: int| 0 <= i < cookies@.len() ==> cookie_of(#[trigger] rc[i], cookies@[i]),
            decreases rest@.len(),
        {
            let ghost n = cookies@.len() as int;
            let c = rest.remove(0);
            assert(c == rc[n]);
            cookies.push(ScrappeyCookie::from_raw(c));
            assert(rest@ =~= rc.skip(n + 1));
        }
        ScrappeySolution {
            url: raw.current_url,
            status: raw.status_code,
            cookies,
            user_agent: raw.user_agent,
            response: raw.response,
        }
    }
}

/// Whether an optional text is `success`.
fn is_success_data(data: &Option<String>) -> (b: bool)
    ensures
        b == match data {
            Some(d) => d@ == "success"@,
            None => false,
        },
{
    match data {
        Some(d) => str_eq(d.as_str(), "success"),
        None => false,
    }
}

/// Why a Scrappey answer gave no solution.
#[derive(Debug)]
pub enum ScrappeyFailure {
    /// The answer was not a success: `Scrappey error: <message>`.
    Failed { message: String },
    /// A successful answer without a solution.
    NoSolution,
}

/// The solution of a Scrappey answer: an answer whose `data` is not `success` is
/// an error carrying its message (or `Unknown error`); a successful one must hold
/// a solution.
pub fn extract_solution(resp: ScrappeyResponse) -> (r: Result<ScrappeySolution, ScrappeyFailure>)
    ensures
        match resp.data {
            Some(d) if d@ == "success"@ => match resp.solution {
                Some(raw) => r is Ok && solution_of(raw, r->Ok_0),
                None => r matches Err(ScrappeyFailure::NoSolution),
            },
            _ => r matches Err(ScrappeyFailure::Failed { message }) && message@ == "Scrappey error: "@
                + match resp.error {
                Some(e) => e@,
                None => "Unknown error"@,
            },
        },
{
    if !is_success_data(&resp.data) {
        let mut message = String::from_str("Scrappey error: ");
        match resp.error {
            Some(e) => push_str(&mut message, e.as_str()),
            None => push_str(&mut message, "Unknown error"),
        }
        return Err(ScrappeyFailure::Failed { message });
    }
    match resp.solution {
        Some(raw) => Ok(ScrappeySolution::from(raw)),
        None => Err(ScrappeyFailure::NoSolution),
    }
}

/// The session id of the answer to a session creation: an answer whose `data` is
/// not `success` fails with `Scrappey session creation failed: <message>` (or
/// `Unknown error creating session`); a successful one must carry a session id.
pub fn session_from_response(resp: ScrappeyResponse) -> (r: Result<String, String>)
    ensures
        match resp.data {
            Some(d) if d@ == "success"@ => match resp.session {
                Some(s) => r is Ok && r->Ok_0@ == s@,
                None => r is Err && r->Err_0@ == "Scrappey did not return a session ID"@,
            },
            _ => r is Err && r->Err_0@ == "Scrappey session creation failed: "@ + match resp.error {
                Some(e) => e@,
                None => "Unknown error creating session"@,
            },
        },
{
    if !is_success_data(&resp.data) {
        let mut message = String::from_str("Scrappey session creation failed: ");
        match resp.error {
            Some(e) => push_str(&mut message, e.as_str()),
            None => push_str(&mut message, "Unknown error creating session"),
        }
        return Err(message);
    }
    match resp.session {
        Some(s) => Ok(s),
        None => Err(String::from_str("Scrappey did not return a session ID")),
    }
}

/// The API endpoint with the key of the account.
pub fn scrappey_endpoint(api_key: &str) -> (r: String)
    ensures
        r@ == "https://publisher.scrappey.com/api/v1?key="@ + api_key@,
{
    let mut r = String::from_str("https://publisher.scrappey.com/api/v1?key=");
    push_str(&mut r, api_key);
    r
}

/// Whether an HTTP status means success (200 to 299).
pub open spec fn is_success_status(status: u16) -> bool {
    200 <= status <= 299
}

/// The statuses with which Cloudflare blocks a direct request.
pub open spec fn is_cloudflare_block(status: u16) -> bool {
    status == 307 || status == 302 || status == 403 || status == 503
}

/// What to do after a direct request for a tracker page.
#[derive(Debug, Clone, Copy, PartialEq, Eq, Structural)]
pub enum FetchStep {
    /// The request succeeded: read its body.
    ReadBody,
    /// Fetch the page through Scrappey.
    UseScrappey,
    /// Blocked by Cloudflare, and Scrappey is not configured.
    BlockedWithoutScrappey,
    /// Another HTTP error.
    HttpError,
    /// The request failed, and Scrappey is not configured.
    FailedWithoutScrappey,
}

/// The step after a direct request for a tracker page that got `status` (or
/// failed, for `None`): a success is read, a Cloudflare block or a failure
/// falls back to Scrappey when it is configured, anything else is an error.
pub open spec fn fetch_step_spec(status: Option<u16>, scrappey_available: bool) -> FetchStep {
    match status {
        Some(s) => if is_success_status(s) {
            FetchStep::ReadBody
        } else if is_cloudflare_block(s) {
            if scrappey_available {
                FetchStep::UseScrappey
            } else {
                FetchStep::BlockedWithoutScrappey
            }
        } else {
            FetchStep::HttpError
        },
        None => if scrappey_available {
            FetchStep::UseScrappey
        } else {
            FetchStep::FailedWithoutScrappey
        },
    }
}

/// Chooses the step after a direct request for a tracker page.
pub fn fetch_step(status: Option<u16>, scrappey_available: bool) -> (r: FetchStep)
    ensures
        r == fetch_step_spec(status, scrappey_available),
{
    match status {
        Some(s) => {
            if 200 <= s && s <= 299 {
                FetchStep::ReadBody
            } else if s == 307 || s == 302 || s == 403 || s == 503 {
                if scrappey_available {
                    FetchStep::UseScrappey
                } else {
                    FetchStep::BlockedWithoutScrappey
                }
            } else {
                FetchStep::HttpError
            }
        },
        None => {
            if scrappey_available {
                FetchStep::UseScrappey
            } else {
                FetchStep::FailedWithoutScrappey
            }
        },
    }
}

/// An action that Scrappey's browser performs once the captcha is solved.
#[derive(Debug)]
pub enum BrowserAction {
    /// Type `text` into the field that `css_selector` finds.
    Type { css_selector: String, text: String },
    /// Press the key `value`.
    Keyboard { value: String },
    /// Wait `millis` milliseconds.
    Wait { millis: u64 },
    /// Wait until the page reaches the load state `state`.
    WaitForLoadState { state: String },
}

/// A request to Scrappey's browser.  A missing session, proxy country or post
/// body, an empty cookie jar, no custom headers and no browser actions are left
/// out of what is sent.
#[derive(Debug)]
pub struct ScrappeyRequest {
    /// `request.get` or `request.post`.
    pub cmd: String,
    pub url: String,
    pub session: Option<String>,
    pub proxy_country: Option<String>,
    pub post_data: Option<String>,
    /// Cookies the browser starts with.
    pub cookiejar: Vec<ScrappeyCookie>,
    /// Headers (name, value) the browser sends, in order.
    pub custom_headers: Vec<(String, String)>,
    pub browser_actions: Vec<BrowserAction>,
}

/// `a` types `text` into the field that `selector` finds.
pub open spec fn types_into(a: BrowserAction, selector: Seq<char>, text: Seq<char>) -> bool {
    a matches BrowserAction::Type { css_selector, text: t } && css_selector@ == selector && t@ == text
}

/// `a` presses the key `key`.
pub open spec fn presses(a: BrowserAction, key: Seq<char>) -> bool {
    a matches BrowserAction::Keyboard { value } && value@ == key
}

/// `a` waits `millis` milliseconds.
pub open spec fn waits(a: BrowserAction, millis: u64) -> bool {
    a matches BrowserAction::Wait { millis: m } && m == millis
}

/// `a` waits until the page reaches the load state `state`.
pub open spec fn waits_for_load_state(a: BrowserAction, state: Seq<char>) -> bool {
    a matches BrowserAction::WaitForLoadState { state: s } && s@ == state
}

/// The headers (name, value) of some custom headers.
pub open spec fn headers_view(h: Seq<(String, String)>) -> Seq<(Seq<char>, Seq<char>)> {
    h.map_values(|p: (String, String)| (p.0@, p.1@))
}

/// The user-agent header for `ua`, when there is one.
pub open spec fn user_agent_headers(ua: Option<String>) -> Seq<(Seq<char>, Seq<char>)> {
    match ua {
        Some(u) => seq![("user-agent"@, u@)],
        None => Seq::empty(),
    }
}

fn user_agent_header(ua: Option<String>, headers: &mut Vec<(String, String)>)
    ensures
        headers_view(final(headers)@) == headers_view(old(headers)@) + user_agent_headers(ua),
{
    let ghost before = headers@;
    if let Some(u) = ua {
        headers.push((String::from_str("user-agent"), u));
        assert(headers_view(headers@) =~= headers_view(before) + user_agent_headers(ua));
    } else {
        assert(headers_view(headers@) =~= headers_view(before) + user_agent_headers(ua));
    }
}

/// The request that logs in through Scrappey's browser: open the login page in
/// the session, from France, and once the captcha is solved type the user name
/// and the password, press Enter, wait 5 seconds and wait for the network to
/// settle.
pub fn scrappey_login_request(
    url: &str,
    session: &str,
    username: &str,
    password: &str,
) -> (r: ScrappeyRequest)
    ensures
        r.cmd@ == "request.get"@,
        r.url@ == url@,
        r.session matches Some(s) && s@ == session@,
        r.proxy_country matches Some(c) && c@ == "FR"@,
        r.post_data is None,
        r.cookiejar@.len() == 0,
        r.custom_headers@.len() == 0,
        r.browser_actions@.len() == 5,
        types_into(r.browser_actions@[0], "input[name='id']"@, username@),
        types_into(r.browser_actions@[1], "input[name='pass']"@, password@),
        presses(r.browser_actions@[2], "enter"@),
        waits(r.browser_actions@[3], 5000),
        waits_for_load_state(r.browser_actions@[4], "networkidle"@),
{
    let actions = vec![
        BrowserAction::Type { css_selector: String::from_str("input[name='id']"), text: username.to_string() },
        BrowserAction::Type { css_selector: String::from_str("input[name='pass']"), text: password.to_string() },
        BrowserAction::Keyboard { value: String::from_str("enter") },
        BrowserAction::Wait { millis: 5000 },
        BrowserAction::WaitForLoadState { state: String::from_str("networkidle") },
    ];
    ScrappeyRequest {
        cmd: String::from_str("request.get"),
        url: url.to_string(),
        session: Some(session.to_string()),
        proxy_country: Some(String::from_str("FR")),
        post_data: None,
        cookiejar: Vec::new(),
        custom_headers: Vec::new(),
        browser_actions: actions,
    }
}

/// The request that opens `url` in Scrappey's browser, in the persistent
/// session when there is one, with the cookies of the logged-in browser, in
/// order, and its user agent when there is one.
pub fn scrappey_get_request(
    url: &str,
    session: Option<String>,
    cookies: Vec<ScrappeyCookie>,
    user_agent: Option<String>,
) -> (r: ScrappeyRequest)
    ensures
        r.cmd@ == "request.get"@,
        r.url@ == url@,
        r.session == session,
        r.proxy_country is None,
        r.post_data is None,
        r.cookiejar@ == cookies@,
        headers_view(r.custom_headers@) == user_agent_headers(user_agent),
        r.browser_actions@.len() == 0,
{
    let mut headers: Vec<(String, String)> = Vec::new();
    user_agent_header(user_agent, &mut headers);
    assert(headers_view(Seq::<(String, String)>::empty()) + user_agent_headers(user_agent) =~= user_agent_headers(user_agent));
    ScrappeyRequest {
        cmd: String::from_str("request.get"),
        url: url.to_string(),
        session,
        proxy_country: None,
        post_data: None,
        cookiejar: cookies,
        custom_headers: headers,
        browser_actions: Vec::new(),
    }
}

/// The request that posts the form `post_data` to `url` through Scrappey's
/// browser, as an XMLHttpRequest, with the cookies of the logged-in browser and
/// its user agent when there is one.
pub fn scrappey_post_request(
    url: &str,
    post_data: &str,
    cookies: Vec<ScrappeyCookie>,
    user_agent: Option<String>,
) -> (r: ScrappeyRequest)
    ensures
        r.cmd@ == "request.post"@,
        r.url@ == url@,
        r.session is None,
        r.proxy_country is None,
        r.post_data matches Some(d) && d@ == post_data@,
        r.cookiejar@ == cookies@,
        headers_view(r.custom_headers@) == seq![
            ("content-type"@, "application/x-www-form-urlencoded"@),
            ("x-requested-with"@, "XMLHttpRequest"@),
        ] + user_agent_headers(user_agent),
        r.browser_actions@.len() == 0,
{
    let mut headers: Vec<(String, String)> = Vec::new();
    headers.push((String::from_str("content-type"), String::from_str("application/x-www-form-urlencoded")));
    headers.push((String::from_str("x-requested-with"), String::from_str("XMLHttpRequest")));
    assert(headers_view(headers@) =~= seq![
        ("content-type"@, "application/x-www-form-urlencoded"@),
        ("x-requested-with"@, "XMLHttpRequest"@),
    ]);
    user_agent_header(user_agent, &mut headers);
    ScrappeyRequest {
        cmd: String::from_str("request.post"),
        url: url.to_string(),
        session: None,
        proxy_country: None,
        post_data: Some(post_data.to_string()),
        cookiejar: cookies,
        custom_headers: headers,
        browser_actions: Vec::new(),
    }
}

} // verus!
