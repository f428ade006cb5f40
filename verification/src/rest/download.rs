//! The course of a torrent download, as a state machine: ask for a download
//! token (directly, else through Scrappey), wait, fetch the torrent file
//! (directly, else once more with the cookies and user agent of Scrappey's
//! browser) and check it.  The caller performs each
//! action and reports what happened as the next event.
use vstd::prelude::*;
use vstd::utf8::encode_utf8;
use crate::numbers::decimal;
use crate::rest::torrent::{
    attachment_disposition, base64_standard_decoded, binary_download_step, build_cookie_header,
    check_torrent_bytes, cookie_header_spec, cookies_for, download_wait_secs,
    extract_token_from_json, json_field_str, redirected_download_error, referer,
    signed_download_url, token_json_cuttable, token_json_text, token_request_body, token_step,
    token_url, torrent_bytes_from_scrappey, url_host, url_host_spec, BinaryStep, TokenError,
    TokenStep,
};
use crate::scrappey::{is_success_status, ScrappeySolution};

verus! {

/// What a download is set up with.
#[derive(Debug)]
pub struct DownloadSetup {
    /// The tracker's domain.
    pub domain: String,
    /// The torrent's id.
    pub id: usize,
    /// Whether turbo mode is on (shorter wait).
    pub turbo_enabled: Option<bool>,
    /// Whether Scrappey is configured.
    pub scrappey_available: bool,
}

/// Where a download stands.
#[derive(Debug)]
pub enum DownloadState {
    Start,
    PostingToken,
    ReadingTokenAnswer,
    PostingTokenViaScrappey,
    /// Waiting before the download, with the token and, after Scrappey, its
    /// cookies and user agent.
    Waiting { token: String, cookies: Option<String>, user_agent: Option<String> },
    /// The torrent file was requested from `url`.
    Downloading { url: String },
    ReadingFile,
    CheckingRemaining,
    /// Scrappey's browser is opening the torrent file at `url`, for its cookies.
    FetchingScrappeyCookies { url: String },
    /// The torrent file was requested again with Scrappey's cookies; `page` is
    /// what Scrappey's browser got there.
    Retrying { page: String },
    Finished,
}

/// What happened when the last action was performed.
#[derive(Debug)]
pub enum DownloadEvent {
    /// The download begins.
    Started,
    /// The token request got `status` (`None`: it failed).
    TokenPosted { status: Option<u16> },
    /// The body of the token answer, or why it could not be read.
    TokenAnswer { result: Result<String, String> },
    /// Scrappey's answer to the token request, or why there is none.
    ScrappeyTokenAnswer { result: Result<ScrappeySolution, String> },
    /// The wait is over.
    Waited,
    /// The request for the torrent file got `status` (`None`: it failed).
    FileRequested { status: Option<u16> },
    /// The bytes of the torrent file, or why they could not be read.
    FileRead { result: Result<Vec<u8>, String> },
    /// The remaining downloads, or why they could not be read.
    RemainingRead { result: Result<u16, String> },
    /// What Scrappey's browser got at the torrent file (its cookies, user agent
    /// and page), or why there is nothing.
    ScrappeyCookies { result: Result<ScrappeySolution, String> },
}

/// Why a download failed.
#[derive(Debug)]
pub enum DownloadFailure {
    /// A failure with its message.
    Message(String),
    /// The token answer is not JSON: `serde_json`'s message and the answer.
    TokenJson { error: String, raw: String },
    /// The downloaded content does not start like a torrent file (it is kept
    /// for the log).
    InvalidContent { bytes: Vec<u8> },
}

/// What the caller must do next.
#[derive(Debug)]
pub enum DownloadAction {
    /// Post `body` to `url` to ask for the download token.
    PostToken { url: String, body: String },
    /// Read the body of the token answer.
    ReadTokenAnswer,
    /// Post `body` to `url` through Scrappey's browser.
    PostTokenViaScrappey { url: String, body: String },
    /// Wait `secs` seconds.
    Wait { secs: u64 },
    /// Request the torrent file at `url`, with these cookies, user agent and referer.
    RequestFile { url: String, cookies: Option<String>, user_agent: Option<String>, referer: String },
    /// Read the bytes of the answer.
    ReadFile,
    /// Read the remaining downloads of the account.
    CheckRemaining,
    /// Open `url` in Scrappey's browser, for its cookies and user agent.
    FetchScrappeyCookies { url: String },
    /// Answer with the torrent file and its `Content-Disposition`.
    Respond { bytes: Vec<u8>, disposition: String },
    /// The download failed.
    Fail { failure: DownloadFailure },
}

/// Whether `e` is what can follow the action taken in state `s`: the answers
/// that hold the token must be cut out as JSON (see `token_json_cuttable`).
pub open spec fn download_expects(s: DownloadState, e: DownloadEvent) -> bool {
    match (s, e) {
        (DownloadState::Start, DownloadEvent::Started) => true,
        (DownloadState::PostingToken, DownloadEvent::TokenPosted { .. }) => true,
        (DownloadState::ReadingTokenAnswer, DownloadEvent::TokenAnswer { result }) => match result {
            Ok(text) => token_json_cuttable(text@),
            Err(_) => true,
        },
        (DownloadState::PostingTokenViaScrappey, DownloadEvent::ScrappeyTokenAnswer { result }) => match result {
            Ok(sol) => token_json_cuttable(sol.response@),
            Err(_) => true,
        },
        (DownloadState::Waiting { .. }, DownloadEvent::Waited) => true,
        (DownloadState::Downloading { .. }, DownloadEvent::FileRequested { .. }) => true,
        (DownloadState::ReadingFile, DownloadEvent::FileRead { .. }) => true,
        (DownloadState::CheckingRemaining, DownloadEvent::RemainingRead { .. }) => true,
        (DownloadState::FetchingScrappeyCookies { .. }, DownloadEvent::ScrappeyCookies { .. }) => true,
        (DownloadState::Retrying { .. }, DownloadEvent::FileRequested { .. }) => true,
        _ => false,
    }
}

/// The URL that starts the download timer on `domain`.
pub open spec fn token_url_spec(domain: Seq<char>) -> Seq<char> {
    "https://"@ + domain + "/engine/start_download_timer"@
}

/// The signed URL of the torrent file.
pub open spec fn signed_url_spec(domain: Seq<char>, id: usize, token: Seq<char>) -> Seq<char> {
    "https://"@ + domain + "/engine/download_torrent?id="@ + decimal(id as nat) + "&token="@ + token
}

/// The wait before the download: 5 seconds in turbo mode, 35 otherwise.
pub open spec fn wait_secs_spec(turbo_enabled: Option<bool>) -> u64 {
    if turbo_enabled == Some(true) {
        5u64
    } else {
        35u64
    }
}

/// `a` is a failure with the message `m`.
pub open spec fn fails_with_message(a: DownloadAction, m: Seq<char>) -> bool {
    a matches DownloadAction::Fail { failure: DownloadFailure::Message(x) } && x@ == m
}

/// After a token answer `raw`: wait with the token it holds (and the given
/// cookies and user agent), or fail.
pub open spec fn after_token_answer(
    setup: DownloadSetup,
    raw: Seq<char>,
    cookies: Option<Seq<char>>,
    user_agent: Option<Seq<char>>,
    next: DownloadState,
    a: DownloadAction,
) -> bool {
    match json_field_str(token_json_text(raw), "token"@) {
        Some(Some(t)) => {
            &&& next matches DownloadState::Waiting { token, cookies: c, user_agent: u } && ({
                &&& token@ == t
                &&& match c {
                    Some(x) => cookies == Some(x@),
                    None => cookies is None,
                }
                &&& match u {
                    Some(x) => user_agent == Some(x@),
                    None => user_agent is None,
                }
            })
            &&& a matches DownloadAction::Wait { secs } && secs == wait_secs_spec(setup.turbo_enabled)
        },
        Some(None) => next is Finished && fails_with_message(
            a,
            "Token not found in start_download_timer response"@,
        ),
        None => {
            &&& next is Finished
            &&& a matches DownloadAction::Fail { failure: DownloadFailure::TokenJson { raw: r, .. } }
                && r@ == raw
        },
    }
}

/// The end of a download with the bytes `bytes`: refused when empty or when
/// they do not start with `d`; otherwise they are the answer.
pub open spec fn finished_with(setup: DownloadSetup, bytes: Seq<u8>, next: DownloadState, a: DownloadAction) -> bool {
    &&& next is Finished
    &&& if bytes.len() == 0 {
        fails_with_message(a, "Downloaded torrent file is empty"@)
    } else if bytes[0] != 100 {
        a matches DownloadAction::Fail { failure: DownloadFailure::InvalidContent { bytes: b } } && b@
            == bytes
    } else {
        a matches DownloadAction::Respond { bytes: b, disposition } && b@ == bytes && disposition@
            == "attachment; filename=\""@ + decimal(setup.id as nat) + ".torrent\""@
    }
}

/// The end of a download whose retry with Scrappey's cookies failed too: the
/// torrent file is taken from the page Scrappey's browser got, base64-decoded
/// when that gives something, else as its UTF-8 bytes; an empty page fails.
pub open spec fn finished_from_page(setup: DownloadSetup, page: Seq<char>, next: DownloadState, a: DownloadAction) -> bool {
    match base64_standard_decoded(page) {
        Some(b) if b.len() > 0 => finished_with(setup, b, next, a),
        _ => if page.len() > 0 {
            finished_with(setup, encode_utf8(page), next, a)
        } else {
            next is Finished && fails_with_message(
                a,
                "Scrappey returned empty response for torrent download"@,
            )
        },
    }
}

/// The step of a download from state `s` on event `e`: the next state and action.
pub open spec fn download_transition(
    setup: DownloadSetup,
    s: DownloadState,
    e: DownloadEvent,
    next: DownloadState,
    a: DownloadAction,
) -> bool {
    let token_url = token_url_spec(setup.domain@);
    let body = "torrent_id="@ + decimal(setup.id as nat);
    match e {
        DownloadEvent::Started => {
            &&& next is PostingToken
            &&& a matches DownloadAction::PostToken { url, body: b } && url@ == token_url && b@ == body
        },
        DownloadEvent::TokenPosted { status } => match status {
            Some(c) if is_success_status(c) => next is ReadingTokenAnswer && a is ReadTokenAnswer,
            _ => if setup.scrappey_available {
                &&& next is PostingTokenViaScrappey
                &&& a matches DownloadAction::PostTokenViaScrappey { url, body: b } && url@ == token_url
                    && b@ == body
            } else {
                next is Finished && fails_with_message(
                    a,
                    "CF blocked token request and Scrappey not configured"@,
                )
            },
        },
        DownloadEvent::TokenAnswer { result } => match result {
            Ok(text) => after_token_answer(setup, text@, None, None, next, a),
            Err(m) => next is Finished && fails_with_message(a, m@),
        },
        DownloadEvent::ScrappeyTokenAnswer { result } => match result {
            Ok(sol) => after_token_answer(
                setup,
                sol.response@,
                Some(cookie_header_spec(cookies_for(sol.cookies@, url_host_spec(token_url)))),
                Some(sol.user_agent@),
                next,
                a,
            ),
            Err(m) => next is Finished && fails_with_message(a, m@),
        },
        DownloadEvent::Waited => match s {
            DownloadState::Waiting { token, cookies, user_agent } => {
                let url = signed_url_spec(setup.domain@, setup.id, token@);
                &&& next matches DownloadState::Downloading { url: u } && u@ == url
                &&& a matches DownloadAction::RequestFile { url: u, cookies: c, user_agent: ua, referer: r }
                    && u@ == url && c == cookies && ua == user_agent && r@ == "https://"@ + setup.domain@
                    + "/"@
            },
            _ => false,
        },
        DownloadEvent::FileRequested { status } => match s {
            DownloadState::Downloading { url } => match status {
                Some(c) if is_success_status(c) => next is ReadingFile && a is ReadFile,
                Some(c) if c == 302 => next is CheckingRemaining && a is CheckRemaining,
                _ => if setup.scrappey_available {
                    &&& next matches DownloadState::FetchingScrappeyCookies { url: u } && u@ == url@
                    &&& a matches DownloadAction::FetchScrappeyCookies { url: u } && u@ == url@
                } else {
                    next is Finished && fails_with_message(
                        a,
                        "Torrent download failed and Scrappey not configured"@,
                    )
                },
            },
            DownloadState::Retrying { page } => match status {
                Some(c) if is_success_status(c) => next is ReadingFile && a is ReadFile,
                Some(c) if c == 302 => next is CheckingRemaining && a is CheckRemaining,
                _ => finished_from_page(setup, page@, next, a),
            },
            _ => false,
        },
        DownloadEvent::ScrappeyCookies { result } => match s {
            DownloadState::FetchingScrappeyCookies { url } => match result {
                Ok(sol) => {
                    &&& next matches DownloadState::Retrying { page } && page@ == sol.response@
                    &&& requests_with_scrappey_cookies(a, url@, sol, setup.domain@)
                },
                Err(m) => next is Finished && fails_with_message(a, m@),
            },
            _ => false,
        },
        DownloadEvent::FileRead { result } => match result {
            Ok(bytes) => finished_with(setup, bytes@, next, a),
            Err(m) => next is Finished && fails_with_message(a, m@),
        },
        DownloadEvent::RemainingRead { result } => next is Finished && fails_with_message(
            a,
            match result {
                Ok(n) => if n == 0 {
                    "No remaining downloads"@
                } else {
                    "Failed to download torrent, but you have remaining downloads."@
                },
                Err(_) => "Failed to download torrent and check remaining downloads."@,
            },
        ),
    }
}

/// Whether `e` is what can follow the action taken in state `s`.
pub fn download_is_expected(s: &DownloadState, e: &DownloadEvent) -> (b: bool)
    ensures
        b == download_expects(*s, *e),
{
    match (s, e) {
        (DownloadState::Start, DownloadEvent::Started) => true,
        (DownloadState::PostingToken, DownloadEvent::TokenPosted { .. }) => true,
        (DownloadState::ReadingTokenAnswer, DownloadEvent::TokenAnswer { result }) => match result {
            Ok(text) => crate::rest::torrent::token_json_is_cuttable(text.as_str()),
            Err(_) => true,
        },
        (DownloadState::PostingTokenViaScrappey, DownloadEvent::ScrappeyTokenAnswer { result }) => match result {
            Ok(sol) => crate::rest::torrent::token_json_is_cuttable(sol.response.as_str()),
            Err(_) => true,
        },
        (DownloadState::Waiting { .. }, DownloadEvent::Waited) => true,
        (DownloadState::Downloading { .. }, DownloadEvent::FileRequested { .. }) => true,
        (DownloadState::ReadingFile, DownloadEvent::FileRead { .. }) => true,
        (DownloadState::CheckingRemaining, DownloadEvent::RemainingRead { .. }) => true,
        (DownloadState::FetchingScrappeyCookies { .. }, DownloadEvent::ScrappeyCookies { .. }) => true,
        (DownloadState::Retrying { .. }, DownloadEvent::FileRequested { .. }) => true,
        _ => false,
    }
}

fn fail_message(m: String) -> (r: (DownloadState, DownloadAction))
    ensures
        r.0 is Finished && fails_with_message(r.1, m@),
{
    (DownloadState::Finished, DownloadAction::Fail { failure: DownloadFailure::Message(m) })
}

fn token_answered(
    setup: &DownloadSetup,
    raw: String,
    cookies: Option<String>,
    user_agent: Option<String>,
) -> (r: (DownloadState, DownloadAction))
    requires
        token_json_cuttable(raw@),
    ensures
        after_token_answer(
            *setup,
            raw@,
            match cookies {
                Some(c) => Some(c@),
                None => None,
            },
            match user_agent {
                Some(u) => Some(u@),
                None => None,
            },
            r.0,
            r.1,
        ),
{
    match extract_token_from_json(raw.as_str()) {
        Ok(token) => (
            DownloadState::Waiting { token, cookies, user_agent },
            DownloadAction::Wait { secs: download_wait_secs(setup.turbo_enabled) },
        ),
        Err(TokenError::Missing) => fail_message(
            String::from_str("Token not found in start_download_timer response"),
        ),
        Err(TokenError::Json(error)) => (
            DownloadState::Finished,
            DownloadAction::Fail { failure: DownloadFailure::TokenJson { error, raw } },
        ),
    }
}

fn finish(setup: &DownloadSetup, bytes: Vec<u8>) -> (r: (DownloadState, DownloadAction))
    ensures
        finished_with(*setup, bytes@, r.0, r.1),
{
    match check_torrent_bytes(bytes.as_slice()) {
        Ok(()) => (
            DownloadState::Finished,
            DownloadAction::Respond { bytes, disposition: attachment_disposition(setup.id) },
        ),
        Err(m) => {
            if bytes.len() == 0 {
                fail_message(m)
            } else {
                (DownloadState::Finished, DownloadAction::Fail { failure: DownloadFailure::InvalidContent { bytes } })
            }
        },
    }
}

/// Decides the next state and action of a download in state `state` on `event`.
pub fn download_step(setup: &DownloadSetup, state: DownloadState, event: DownloadEvent) -> (r: (
    DownloadState,
    DownloadAction,
))
    requires
        download_expects(state, event),
    ensures
        download_transition(*setup, state, event, r.0, r.1),
{
    match event {
        DownloadEvent::Started => (
            DownloadState::PostingToken,
            DownloadAction::PostToken {
                url: token_url(setup.domain.as_str()),
                body: token_request_body(setup.id),
            },
        ),
        DownloadEvent::TokenPosted { status } => {
            match token_step(status, setup.scrappey_available) {
                TokenStep::ReadToken => (DownloadState::ReadingTokenAnswer, DownloadAction::ReadTokenAnswer),
                TokenStep::UseScrappey => (
                    DownloadState::PostingTokenViaScrappey,
                    DownloadAction::PostTokenViaScrappey {
                        url: token_url(setup.domain.as_str()),
                        body: token_request_body(setup.id),
                    },
                ),
                TokenStep::FailedWithoutScrappey => fail_message(
                    String::from_str("CF blocked token request and Scrappey not configured"),
                ),
            }
        },
        DownloadEvent::TokenAnswer { result } => {
            match result {
                Ok(text) => token_answered(setup, text, None, None),
                Err(m) => fail_message(m),
            }
        },
        DownloadEvent::ScrappeyTokenAnswer { result } => {
            match result {
                Ok(sol) => {
                    let url = token_url(setup.domain.as_str());
                    let host = url_host(url.as_str());
                    let cookies = build_cookie_header(&sol.cookies, host.as_str());
                    token_answered(setup, sol.response, Some(cookies), Some(sol.user_agent))
                },
                Err(m) => fail_message(m),
            }
        },
        DownloadEvent::Waited => {
            match state {
                DownloadState::Waiting { token, cookies, user_agent } => {
                    let url = signed_download_url(setup.domain.as_str(), setup.id, token.as_str());
                    let again = signed_download_url(setup.domain.as_str(), setup.id, token.as_str());
                    (
                        DownloadState::Downloading { url: again },
                        DownloadAction::RequestFile {
                            url,
                            cookies,
                            user_agent,
                            referer: referer(setup.domain.as_str()),
                        },
                    )
                },
                _ => (DownloadState::Finished, DownloadAction::ReadFile),
            }
        },
        DownloadEvent::FileRequested { status } => {
            match state {
                DownloadState::Downloading { url } => {
                    match binary_download_step(status, setup.scrappey_available) {
                        BinaryStep::ReadBytes => (DownloadState::ReadingFile, DownloadAction::ReadFile),
                        BinaryStep::CheckRemaining => (
                            DownloadState::CheckingRemaining,
                            DownloadAction::CheckRemaining,
                        ),
                        BinaryStep::UseScrappey => {
                            let again = url.clone();
                            (
                                DownloadState::FetchingScrappeyCookies { url },
                                DownloadAction::FetchScrappeyCookies { url: again },
                            )
                        },
                        BinaryStep::FailedWithoutScrappey => fail_message(
                            String::from_str("Torrent download failed and Scrappey not configured"),
                        ),
                    }
                },
                DownloadState::Retrying { page } => {
                    // The retry has no further fallback: a failure takes the
                    // file from the page that Scrappey's browser got.
                    match binary_download_step(status, false) {
                        BinaryStep::ReadBytes => (DownloadState::ReadingFile, DownloadAction::ReadFile),
                        BinaryStep::CheckRemaining => (
                            DownloadState::CheckingRemaining,
                            DownloadAction::CheckRemaining,
                        ),
                        _ => match torrent_bytes_from_scrappey(page.as_str()) {
                            Ok(bytes) => finish(setup, bytes),
                            Err(m) => fail_message(m),
                        },
                    }
                },
                _ => (DownloadState::Finished, DownloadAction::ReadFile),
            }
        },
        DownloadEvent::ScrappeyCookies { result } => {
            match state {
                DownloadState::FetchingScrappeyCookies { url } => {
                    match result {
                        Ok(sol) => {
                            let cookies = build_cookie_header(&sol.cookies, setup.domain.as_str());
                            (
                                DownloadState::Retrying { page: sol.response },
                                DownloadAction::RequestFile {
                                    url,
                                    cookies: Some(cookies),
                                    user_agent: Some(sol.user_agent),
                                    referer: referer(setup.domain.as_str()),
                                },
                            )
                        },
                        Err(m) => fail_message(m),
                    }
                },
                _ => (DownloadState::Finished, DownloadAction::ReadFile),
            }
        },
        DownloadEvent::FileRead { result } => {
            match result {
                Ok(bytes) => finish(setup, bytes),
                Err(m) => fail_message(m),
            }
        },
        DownloadEvent::RemainingRead { result } => fail_message(redirected_download_error(result)),
    }
}

/// A download answers only with a torrent file: whatever the step, the bytes it
/// responds with are not empty and start with `d` (a bencoded dictionary).
pub proof fn lemma_download_responds_with_torrent_files(
    setup: DownloadSetup,
    s: DownloadState,
    e: DownloadEvent,
    next: DownloadState,
    a: DownloadAction,
)
    requires
        download_transition(setup, s, e, next, a),
    ensures
        match a {
            DownloadAction::Respond { bytes, .. } => bytes@.len() > 0 && bytes@[0] == 100,
            _ => true,
        },
{
}

/// A finished download takes no further event.
pub proof fn lemma_download_finished_is_final(e: DownloadEvent)
    ensures
        !download_expects(DownloadState::Finished, e),
{
}

/// `a` requests `url` with the cookies that Scrappey's browser holds for
/// `domain`, its user agent, and the tracker as referer.
pub open spec fn requests_with_scrappey_cookies(a: DownloadAction, url: Seq<char>, sol: ScrappeySolution, domain: Seq<char>) -> bool {
    a matches DownloadAction::RequestFile { url: u, cookies: c, user_agent: ua, referer: r } && u@ == url
        && (c is Some && c->Some_0@ == cookie_header_spec(cookies_for(sol.cookies@, domain)))
        && (ua is Some && ua->Some_0@ == sol.user_agent@) && r@ == "https://"@ + domain + "/"@
}

/// A direct download that fails while Scrappey is available takes cookies from
/// Scrappey and is retried with them: the failure opens the file's URL in
/// Scrappey's browser, its answer requests the same URL again with the
/// browser's cookies and user agent, and when that retry succeeds with a
/// torrent file, the answer is the bytes of the retry.
pub proof fn lemma_failed_download_is_retried_with_scrappey_cookies(
    setup: DownloadSetup,
    url: String,
    status: Option<u16>,
    sol: ScrappeySolution,
    retry_status: u16,
    bytes: Vec<u8>,
    s1: DownloadState,
    a1: DownloadAction,
    s2: DownloadState,
    a2: DownloadAction,
    s3: DownloadState,
    a3: DownloadAction,
    s4: DownloadState,
    a4: DownloadAction,
)
    requires
        setup.scrappey_available,
        match status {
            Some(c) => !is_success_status(c) && c != 302,
            None => true,
        },
        is_success_status(retry_status),
        bytes@.len() > 0 && bytes@[0] == 100,
        download_transition(setup, DownloadState::Downloading { url }, DownloadEvent::FileRequested { status }, s1, a1),
        download_transition(setup, s1, DownloadEvent::ScrappeyCookies { result: Ok(sol) }, s2, a2),
        download_transition(setup, s2, DownloadEvent::FileRequested { status: Some(retry_status) }, s3, a3),
        download_transition(setup, s3, DownloadEvent::FileRead { result: Ok(bytes) }, s4, a4),
    ensures
        a1 matches DownloadAction::FetchScrappeyCookies { url: u } && u@ == url@,
        requests_with_scrappey_cookies(a2, url@, sol, setup.domain@),
        a3 is ReadFile,
        a4 matches DownloadAction::Respond { bytes: b, .. } && b@ == bytes@,
{
}

/// A token request that did not succeed (a status that is not 2xx, or no
/// answer at all) is posted again through Scrappey whenever Scrappey is
/// available; the download gives up there only when it is not.
pub proof fn lemma_failed_token_request_goes_through_scrappey(
    setup: DownloadSetup,
    s: DownloadState,
    status: Option<u16>,
    next: DownloadState,
    a: DownloadAction,
)
    requires
        match status {
            Some(c) => !is_success_status(c),
            None => true,
        },
        download_transition(setup, s, DownloadEvent::TokenPosted { status }, next, a),
    ensures
        setup.scrappey_available ==> (a matches DownloadAction::PostTokenViaScrappey { url, body }
            && url@ == token_url_spec(setup.domain@) && body@ == "torrent_id="@ + decimal(setup.id as nat)),
        a is Fail ==> !setup.scrappey_available,
{
}

} // verus!
