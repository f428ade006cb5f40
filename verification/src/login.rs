//! The course of a login to the tracker, as a state machine: the caller performs
//! each action (file and network work) and reports what happened as the next
//! event; `login_step` decides what comes next.
use vstd::prelude::*;
use crate::auth::{
    login_post_outcome, login_route, login_route_spec, scrappey_login_succeeded,
    session_file_path, session_still_valid, LoginBlock, LoginRefusal, LoginRoute,
};
use crate::scrappey::is_success_status;
use crate::text::{contains_seq, push_str};

verus! {

/// What a login is set up with.
#[derive(Debug)]
pub struct LoginSetup {
    pub username: String,
    /// Whether sessions are resumed from, and saved to, a session file.
    pub use_sessions: bool,
    /// Whether a Scrappey API key is configured.
    pub scrappey_configured: bool,
}

/// Where a login stands.
#[derive(Debug, Clone, Copy, PartialEq, Eq, Structural)]
pub enum LoginState {
    Start,
    LoadingSession,
    CheckingSession,
    DeletingSession,
    FetchingLoginPage,
    InScrappey,
    AdoptingScrappeySession,
    Posting,
    FetchingRoot,
    Saving,
    Finished,
}

/// Why the login through Scrappey could not be carried out.
#[derive(Debug)]
pub enum ScrappeyLoginError {
    /// The Scrappey client could not be made.
    Client(String),
    /// No Scrappey session could be created.
    Session(String),
    /// The browser login request failed.
    Browser(String),
}

/// What happened when the last action was performed.
#[derive(Debug)]
pub enum LoginEvent {
    /// The login begins.
    Started,
    /// The saved session, if there was one, was restored.
    SessionLoaded,
    /// The request that checks the restored session got `status` (`None`: it failed).
    SessionChecked { status: Option<u16> },
    /// The session file was deleted (or could not be).
    SessionDeleted,
    /// The login page request got `status` (`None`: it failed); whether it set a `ygg_` cookie.
    LoginPage { status: Option<u16>, has_ygg_cookie: bool },
    /// Scrappey's browser login ended on the page `final_url`, or failed.
    ScrappeyFinished { result: Result<String, ScrappeyLoginError> },
    /// Scrappey's cookies and user agent were taken over.
    ScrappeySessionAdopted,
    /// The posted credentials got the status (code and text), or the request failed.
    Posted { result: Result<(u16, String), String> },
    /// The request for the site root got the status (code and text), or failed.
    RootFetched { result: Result<(u16, String), String> },
    /// The session was saved, or saving it failed.
    SessionSaved { result: Result<(), String> },
}

/// What the caller must do next.
#[derive(Debug)]
pub enum LoginAction {
    /// Restore the cookies of the session file `path`, if it exists.
    LoadSession { path: String },
    /// Request the site root with the restored cookies.
    CheckSession,
    /// Delete the session file `path`.
    DeleteSession { path: String },
    /// Clear the cookies, set `account_created=true`, and request the login page.
    RequestLoginPage,
    /// Let Scrappey's browser do the whole login.
    ScrappeyLogin,
    /// Take over the cookies and user agent of Scrappey's browser.
    AdoptScrappeySession,
    /// Post the credentials.
    PostCredentials,
    /// Request the site root.
    FetchRoot,
    /// Save the session to the file `path`.
    SaveSession { path: String },
    /// The login succeeded.
    Succeed,
    /// The login failed with `message`.
    Fail { message: String },
}

/// Whether `e` is what can follow the action taken in state `s`.
pub open spec fn expects(s: LoginState, e: LoginEvent) -> bool {
    match (s, e) {
        (LoginState::Start, LoginEvent::Started) => true,
        (LoginState::LoadingSession, LoginEvent::SessionLoaded) => true,
        (LoginState::CheckingSession, LoginEvent::SessionChecked { .. }) => true,
        (LoginState::DeletingSession, LoginEvent::SessionDeleted) => true,
        (LoginState::FetchingLoginPage, LoginEvent::LoginPage { .. }) => true,
        (LoginState::InScrappey, LoginEvent::ScrappeyFinished { .. }) => true,
        (LoginState::AdoptingScrappeySession, LoginEvent::ScrappeySessionAdopted) => true,
        (LoginState::Posting, LoginEvent::Posted { .. }) => true,
        (LoginState::FetchingRoot, LoginEvent::RootFetched { .. }) => true,
        (LoginState::Saving, LoginEvent::SessionSaved { .. }) => true,
        _ => false,
    }
}

/// The message of a login that cannot go on.
pub open spec fn block_message(b: LoginBlock) -> Seq<char> {
    match b {
        LoginBlock::CloudflareWithoutScrappey => "Cloudflare blocked the login page and SCRAPPEY_API_KEY is not set. Set SCRAPPEY_API_KEY to enable automatic bypass."@,
        LoginBlock::NoCookieWithoutScrappey => "No ygg_ cookie found and SCRAPPEY_API_KEY is not set"@,
    }
}

/// The message of a failed login through Scrappey.
pub open spec fn scrappey_error_message(e: ScrappeyLoginError) -> Seq<char> {
    match e {
        ScrappeyLoginError::Client(m) => "Failed to create Scrappey client: "@ + m@,
        ScrappeyLoginError::Session(m) => "Failed to create Scrappey session: "@ + m@,
        ScrappeyLoginError::Browser(m) => "Scrappey browser login failed: "@ + m@,
    }
}

/// The message when Scrappey's browser is still on the login page.
pub open spec fn still_on_login_page_message() -> Seq<char> {
    "Login Scrappey échoué : toujours sur /auth/login après soumission. Vérifiez les identifiants YGG."@
}

/// `a` is a failure with message `m`.
pub open spec fn fails_with(a: LoginAction, m: Seq<char>) -> bool {
    a matches LoginAction::Fail { message } && message@ == m
}

/// After a successful login: save the session when sessions are used.
pub open spec fn after_success(setup: LoginSetup, next: LoginState, a: LoginAction) -> bool {
    if setup.use_sessions {
        &&& next == LoginState::Saving
        &&& a matches LoginAction::SaveSession { path } && path@ == "sessions/"@ + setup.username@
            + ".cookies"@
    } else {
        next == LoginState::Finished && a is Succeed
    }
}

/// The step of a login from state `s` on event `e`: the next state and action.
pub open spec fn login_transition(
    setup: LoginSetup,
    s: LoginState,
    e: LoginEvent,
    next: LoginState,
    a: LoginAction,
) -> bool {
    let path = "sessions/"@ + setup.username@ + ".cookies"@;
    match e {
        LoginEvent::Started => if setup.use_sessions {
            &&& next == LoginState::LoadingSession
            &&& a matches LoginAction::LoadSession { path: p } && p@ == path
        } else {
            next == LoginState::FetchingLoginPage && a is RequestLoginPage
        },
        LoginEvent::SessionLoaded => next == LoginState::CheckingSession && a is CheckSession,
        LoginEvent::SessionChecked { status } => if match status {
            Some(c) => is_success_status(c),
            None => false,
        } {
            next == LoginState::Finished && a is Succeed
        } else {
            &&& next == LoginState::DeletingSession
            &&& a matches LoginAction::DeleteSession { path: p } && p@ == path
        },
        LoginEvent::SessionDeleted => next == LoginState::FetchingLoginPage && a is RequestLoginPage,
        LoginEvent::LoginPage { status, has_ygg_cookie } => match login_route_spec(
            status,
            has_ygg_cookie,
            setup.scrappey_configured,
        ) {
            LoginRoute::PostCredentials => next == LoginState::Posting && a is PostCredentials,
            LoginRoute::Scrappey => next == LoginState::InScrappey && a is ScrappeyLogin,
            LoginRoute::Blocked(b) => next == LoginState::Finished && fails_with(a, block_message(b)),
        },
        LoginEvent::ScrappeyFinished { result } => match result {
            Ok(url) => if contains_seq(url@, "/auth/login"@) {
                next == LoginState::Finished && fails_with(a, still_on_login_page_message())
            } else {
                next == LoginState::AdoptingScrappeySession && a is AdoptScrappeySession
            },
            Err(err) => next == LoginState::Finished && fails_with(a, scrappey_error_message(err)),
        },
        LoginEvent::ScrappeySessionAdopted => after_success(setup, next, a),
        LoginEvent::Posted { result } => match result {
            Ok((code, text)) => if is_success_status(code) {
                next == LoginState::FetchingRoot && a is FetchRoot
            } else if code == 401 {
                next == LoginState::Finished && fails_with(a, "Invalid username or password"@)
            } else {
                next == LoginState::Finished && fails_with(a, "Failed to login: "@ + text@)
            },
            Err(m) => next == LoginState::Finished && fails_with(a, m@),
        },
        LoginEvent::RootFetched { result } => match result {
            Ok((code, text)) => if is_success_status(code) {
                after_success(setup, next, a)
            } else {
                next == LoginState::Finished && fails_with(
                    a,
                    "Failed to fetch site root page: "@ + text@,
                )
            },
            Err(m) => next == LoginState::Finished && fails_with(a, m@),
        },
        LoginEvent::SessionSaved { result } => match result {
            Ok(()) => next == LoginState::Finished && a is Succeed,
            Err(m) => next == LoginState::Finished && fails_with(a, m@),
        },
    }
}

/// Whether `e` is what can follow the action taken in state `s`.
pub fn is_expected(s: LoginState, e: &LoginEvent) -> (b: bool)
    ensures
        b == expects(s, *e),
{
    match (s, e) {
        (LoginState::Start, LoginEvent::Started) => true,
        (LoginState::LoadingSession, LoginEvent::SessionLoaded) => true,
        (LoginState::CheckingSession, LoginEvent::SessionChecked { .. }) => true,
        (LoginState::DeletingSession, LoginEvent::SessionDeleted) => true,
        (LoginState::FetchingLoginPage, LoginEvent::LoginPage { .. }) => true,
        (LoginState::InScrappey, LoginEvent::ScrappeyFinished { .. }) => true,
        (LoginState::AdoptingScrappeySession, LoginEvent::ScrappeySessionAdopted) => true,
        (LoginState::Posting, LoginEvent::Posted { .. }) => true,
        (LoginState::FetchingRoot, LoginEvent::RootFetched { .. }) => true,
        (LoginState::Saving, LoginEvent::SessionSaved { .. }) => true,
        _ => false,
    }
}

fn fail(message: String) -> (r: (LoginState, LoginAction))
    ensures
        r.0 == LoginState::Finished && fails_with(r.1, message@),
{
    (LoginState::Finished, LoginAction::Fail { message })
}

fn prefixed(prefix: &str, text: &str) -> (r: String)
    ensures
        r@ == prefix@ + text@,
{
    let mut m = String::from_str(prefix);
    push_str(&mut m, text);
    m
}

fn succeeded(setup: &LoginSetup) -> (r: (LoginState, LoginAction))
    ensures
        after_success(*setup, r.0, r.1),
{
    if setup.use_sessions {
        (LoginState::Saving, LoginAction::SaveSession { path: session_file_path(setup.username.as_str()) })
    } else {
        (LoginState::Finished, LoginAction::Succeed)
    }
}

/// Decides the next state and action of a login in state `state` on `event`.
pub fn login_step(setup: &LoginSetup, state: LoginState, event: LoginEvent) -> (r: (LoginState, LoginAction))
    requires
        expects(state, event),
    ensures
        login_transition(*setup, state, event, r.0, r.1),
{
    match event {
        LoginEvent::Started => {
            if setup.use_sessions {
                (LoginState::LoadingSession, LoginAction::LoadSession { path: session_file_path(setup.username.as_str()) })
            } else {
                (LoginState::FetchingLoginPage, LoginAction::RequestLoginPage)
            }
        },
        LoginEvent::SessionLoaded => (LoginState::CheckingSession, LoginAction::CheckSession),
        LoginEvent::SessionChecked { status } => {
            if session_still_valid(status) {
                (LoginState::Finished, LoginAction::Succeed)
            } else {
                (LoginState::DeletingSession, LoginAction::DeleteSession { path: session_file_path(setup.username.as_str()) })
            }
        },
        LoginEvent::SessionDeleted => (LoginState::FetchingLoginPage, LoginAction::RequestLoginPage),
        LoginEvent::LoginPage { status, has_ygg_cookie } => {
            match login_route(status, has_ygg_cookie, setup.scrappey_configured) {
                LoginRoute::PostCredentials => (LoginState::Posting, LoginAction::PostCredentials),
                LoginRoute::Scrappey => (LoginState::InScrappey, LoginAction::ScrappeyLogin),
                LoginRoute::Blocked(LoginBlock::CloudflareWithoutScrappey) => fail(
                    String::from_str(
                        "Cloudflare blocked the login page and SCRAPPEY_API_KEY is not set. Set SCRAPPEY_API_KEY to enable automatic bypass.",
                    ),
                ),
                LoginRoute::Blocked(LoginBlock::NoCookieWithoutScrappey) => fail(
                    String::from_str("No ygg_ cookie found and SCRAPPEY_API_KEY is not set"),
                ),
            }
        },
        LoginEvent::ScrappeyFinished { result } => {
            match result {
                Ok(url) => {
                    if scrappey_login_succeeded(url.as_str()) {
                        (LoginState::AdoptingScrappeySession, LoginAction::AdoptScrappeySession)
                    } else {
                        fail(
                            String::from_str(
                                "Login Scrappey échoué : toujours sur /auth/login après soumission. Vérifiez les identifiants YGG.",
                            ),
                        )
                    }
                },
                Err(ScrappeyLoginError::Client(m)) => fail(
                    prefixed("Failed to create Scrappey client: ", m.as_str()),
                ),
                Err(ScrappeyLoginError::Session(m)) => fail(
                    prefixed("Failed to create Scrappey session: ", m.as_str()),
                ),
                Err(ScrappeyLoginError::Browser(m)) => fail(
                    prefixed("Scrappey browser login failed: ", m.as_str()),
                ),
            }
        },
        LoginEvent::ScrappeySessionAdopted => succeeded(setup),
        LoginEvent::Posted { result } => {
            match result {
                Ok((code, text)) => {
                    match login_post_outcome(code) {
                        Ok(()) => (LoginState::FetchingRoot, LoginAction::FetchRoot),
                        Err(LoginRefusal::InvalidCredentials) => fail(
                            String::from_str("Invalid username or password"),
                        ),
                        Err(LoginRefusal::Status(_)) => fail(
                            prefixed("Failed to login: ", text.as_str()),
                        ),
                    }
                },
                Err(m) => fail(m),
            }
        },
        LoginEvent::RootFetched { result } => {
            match result {
                Ok((code, text)) => {
                    if 200 <= code && code <= 299 {
                        succeeded(setup)
                    } else {
                        fail(prefixed("Failed to fetch site root page: ", text.as_str()))
                    }
                },
                Err(m) => fail(m),
            }
        },
        LoginEvent::SessionSaved { result } => {
            match result {
                Ok(()) => (LoginState::Finished, LoginAction::Succeed),
                Err(m) => fail(m),
            }
        },
    }
}

/// The states in which the session file is in use, which only a login with
/// sessions enabled reaches.
pub open spec fn uses_session_file(s: LoginState) -> bool {
    s == LoginState::LoadingSession || s == LoginState::CheckingSession || s
        == LoginState::DeletingSession || s == LoginState::Saving
}

/// Whether an action reads, deletes or writes the session file.
pub open spec fn touches_session_file(a: LoginAction) -> bool {
    a is LoadSession || a is DeleteSession || a is SaveSession
}

/// A login reads, deletes or writes the session file only when sessions are
/// enabled: from a state that is consistent with the setup, every step leads to
/// such a state, and its action touches the session file only with sessions on.
pub proof fn lemma_session_file_only_with_sessions(
    setup: LoginSetup,
    s: LoginState,
    e: LoginEvent,
    next: LoginState,
    a: LoginAction,
)
    requires
        uses_session_file(s) ==> setup.use_sessions,
        expects(s, e),
        login_transition(setup, s, e, next, a),
    ensures
        uses_session_file(next) ==> setup.use_sessions,
        touches_session_file(a) ==> setup.use_sessions,
{
}

/// A finished login takes no further event.
pub proof fn lemma_finished_is_final(e: LoginEvent)
    ensures
        !expects(LoginState::Finished, e),
{
}

} // verus!
