use ygege::scrappey::{
    scrappey_get_request, scrappey_login_request, scrappey_post_request, BrowserAction, ScrappeyCookie,
};
use ygege::login::{
    is_expected, login_step, LoginAction, LoginEvent, LoginSetup, LoginState, ScrappeyLoginError,
};

fn setup(use_sessions: bool, scrappey: bool) -> LoginSetup {
    LoginSetup { username: "bob".to_string(), use_sessions, scrappey_configured: scrappey }
}

fn fail_message(a: LoginAction) -> String {
    match a {
        LoginAction::Fail { message } => message,
        other => panic!("expected a failure, got {:?}", other),
    }
}

#[test]
fn a_valid_saved_session_is_resumed() {
    let s = setup(true, false);
    let (st, a) = login_step(&s, LoginState::Start, LoginEvent::Started);
    assert_eq!(st, LoginState::LoadingSession);
    assert!(matches!(a, LoginAction::LoadSession { ref path } if path == "sessions/bob.cookies"));
    let (st, a) = login_step(&s, st, LoginEvent::SessionLoaded);
    assert_eq!(st, LoginState::CheckingSession);
    assert!(matches!(a, LoginAction::CheckSession));
    let (st, a) = login_step(&s, st, LoginEvent::SessionChecked { status: Some(200) });
    assert_eq!(st, LoginState::Finished);
    assert!(matches!(a, LoginAction::Succeed));
}

#[test]
fn an_expired_session_is_deleted_and_credentials_are_posted() {
    let s = setup(true, true);
    let (st, _) = login_step(&s, LoginState::Start, LoginEvent::Started);
    let (st, _) = login_step(&s, st, LoginEvent::SessionLoaded);
    let (st, a) = login_step(&s, st, LoginEvent::SessionChecked { status: Some(302) });
    assert_eq!(st, LoginState::DeletingSession);
    assert!(matches!(a, LoginAction::DeleteSession { ref path } if path == "sessions/bob.cookies"));
    let (st, a) = login_step(&s, st, LoginEvent::SessionDeleted);
    assert_eq!(st, LoginState::FetchingLoginPage);
    assert!(matches!(a, LoginAction::RequestLoginPage));
    let (st, a) = login_step(&s, st, LoginEvent::LoginPage { status: Some(200), has_ygg_cookie: true });
    assert_eq!(st, LoginState::Posting);
    assert!(matches!(a, LoginAction::PostCredentials));
    let (st, a) = login_step(&s, st, LoginEvent::Posted { result: Ok((200, "200 OK".to_string())) });
    assert_eq!(st, LoginState::FetchingRoot);
    assert!(matches!(a, LoginAction::FetchRoot));
    let (st, a) = login_step(&s, st, LoginEvent::RootFetched { result: Ok((200, "200 OK".to_string())) });
    assert_eq!(st, LoginState::Saving);
    assert!(matches!(a, LoginAction::SaveSession { ref path } if path == "sessions/bob.cookies"));
    let (st, a) = login_step(&s, st, LoginEvent::SessionSaved { result: Ok(()) });
    assert_eq!(st, LoginState::Finished);
    assert!(matches!(a, LoginAction::Succeed));
}

#[test]
fn without_sessions_the_login_page_comes_first() {
    let s = setup(false, false);
    let (st, a) = login_step(&s, LoginState::Start, LoginEvent::Started);
    assert_eq!(st, LoginState::FetchingLoginPage);
    assert!(matches!(a, LoginAction::RequestLoginPage));
    let (_, a) = login_step(&s, LoginState::FetchingRoot, LoginEvent::RootFetched {
        result: Ok((204, "204 No Content".to_string())),
    });
    assert!(matches!(a, LoginAction::Succeed));
}

#[test]
fn blocked_logins_fail_with_their_reason() {
    let s = setup(false, false);
    let (st, a) = login_step(&s, LoginState::FetchingLoginPage, LoginEvent::LoginPage {
        status: Some(403),
        has_ygg_cookie: false,
    });
    assert_eq!(st, LoginState::Finished);
    assert_eq!(
        fail_message(a),
        "Cloudflare blocked the login page and SCRAPPEY_API_KEY is not set. Set SCRAPPEY_API_KEY to enable automatic bypass."
    );
    let (_, a) = login_step(&s, LoginState::FetchingLoginPage, LoginEvent::LoginPage {
        status: Some(200),
        has_ygg_cookie: false,
    });
    assert_eq!(fail_message(a), "No ygg_ cookie found and SCRAPPEY_API_KEY is not set");
}

#[test]
fn scrappey_logins() {
    let s = setup(true, true);
    let (st, a) = login_step(&s, LoginState::FetchingLoginPage, LoginEvent::LoginPage {
        status: None,
        has_ygg_cookie: false,
    });
    assert_eq!(st, LoginState::InScrappey);
    assert!(matches!(a, LoginAction::ScrappeyLogin));
    let (st, a) = login_step(&s, st, LoginEvent::ScrappeyFinished { result: Ok("https://d/".to_string()) });
    assert_eq!(st, LoginState::AdoptingScrappeySession);
    assert!(matches!(a, LoginAction::AdoptScrappeySession));
    let (st, a) = login_step(&s, st, LoginEvent::ScrappeySessionAdopted);
    assert_eq!(st, LoginState::Saving);
    assert!(matches!(a, LoginAction::SaveSession { .. }));

    let (_, a) = login_step(&s, LoginState::InScrappey, LoginEvent::ScrappeyFinished {
        result: Ok("https://d/auth/login?e=1".to_string()),
    });
    assert_eq!(
        fail_message(a),
        "Login Scrappey échoué : toujours sur /auth/login après soumission. Vérifiez les identifiants YGG."
    );
    for (err, msg) in [
        (ScrappeyLoginError::Client("x".to_string()), "Failed to create Scrappey client: x"),
        (ScrappeyLoginError::Session("y".to_string()), "Failed to create Scrappey session: y"),
        (ScrappeyLoginError::Browser("z".to_string()), "Scrappey browser login failed: z"),
    ] {
        let (st, a) = login_step(&s, LoginState::InScrappey, LoginEvent::ScrappeyFinished { result: Err(err) });
        assert_eq!(st, LoginState::Finished);
        assert_eq!(fail_message(a), msg);
    }
}

#[test]
fn refused_credentials() {
    let s = setup(false, false);
    let (_, a) = login_step(&s, LoginState::Posting, LoginEvent::Posted {
        result: Ok((401, "401 Unauthorized".to_string())),
    });
    assert_eq!(fail_message(a), "Invalid username or password");
    let (_, a) = login_step(&s, LoginState::Posting, LoginEvent::Posted {
        result: Ok((500, "500 Internal Server Error".to_string())),
    });
    assert_eq!(fail_message(a), "Failed to login: 500 Internal Server Error");
    let (_, a) = login_step(&s, LoginState::Posting, LoginEvent::Posted { result: Err("timeout".to_string()) });
    assert_eq!(fail_message(a), "timeout");
    let (_, a) = login_step(&s, LoginState::FetchingRoot, LoginEvent::RootFetched {
        result: Ok((503, "503 Service Unavailable".to_string())),
    });
    assert_eq!(fail_message(a), "Failed to fetch site root page: 503 Service Unavailable");
    let (_, a) = login_step(&s, LoginState::Saving, LoginEvent::SessionSaved { result: Err("disk".to_string()) });
    assert_eq!(fail_message(a), "disk");
}

#[test]
fn events_must_fit_the_state() {
    assert!(is_expected(LoginState::Start, &LoginEvent::Started));
    assert!(is_expected(LoginState::Posting, &LoginEvent::Posted { result: Err(String::new()) }));
    assert!(!is_expected(LoginState::Posting, &LoginEvent::Started));
    assert!(!is_expected(LoginState::Finished, &LoginEvent::Started));
    assert!(!is_expected(LoginState::Finished, &LoginEvent::SessionDeleted));
}

#[test]
fn the_scrappey_login_request() {
    let r = scrappey_login_request("https://d.org/auth/login", "sess-1", "me", "secret");
    assert_eq!(r.cmd, "request.get");
    assert_eq!(r.url, "https://d.org/auth/login");
    assert_eq!(r.session.as_deref(), Some("sess-1"));
    assert_eq!(r.proxy_country.as_deref(), Some("FR"));
    assert!(r.post_data.is_none() && r.cookiejar.is_empty() && r.custom_headers.is_empty());
    assert_eq!(r.browser_actions.len(), 5);
    assert!(matches!(&r.browser_actions[0], BrowserAction::Type { css_selector, text } if css_selector == "input[name='id']" && text == "me"));
    assert!(matches!(&r.browser_actions[1], BrowserAction::Type { css_selector, text } if css_selector == "input[name='pass']" && text == "secret"));
    assert!(matches!(&r.browser_actions[2], BrowserAction::Keyboard { value } if value == "enter"));
    assert!(matches!(&r.browser_actions[3], BrowserAction::Wait { millis: 5000 }));
    assert!(matches!(&r.browser_actions[4], BrowserAction::WaitForLoadState { state } if state == "networkidle"));
}

fn jar_cookie(name: &str) -> ScrappeyCookie {
    ScrappeyCookie { name: name.to_string(), value: "v".to_string(), domain: ".d.org".to_string(), path: "/".to_string() }
}

#[test]
fn the_scrappey_get_and_post_requests() {
    let r = scrappey_get_request(
        "https://d.org/x",
        Some("sess-9".to_string()),
        vec![jar_cookie("a"), jar_cookie("b")],
        Some("UA/1".to_string()),
    );
    assert_eq!(r.session.as_deref(), Some("sess-9"));
    assert_eq!(r.cmd, "request.get");
    assert_eq!(r.url, "https://d.org/x");
    let names: Vec<&str> = r.cookiejar.iter().map(|c| c.name.as_str()).collect();
    assert_eq!(names, vec!["a", "b"]);
    assert_eq!(r.custom_headers, vec![("user-agent".to_string(), "UA/1".to_string())]);
    assert!(r.browser_actions.is_empty());

    let r = scrappey_get_request("https://d.org/x", None, Vec::new(), None);
    assert!(r.session.is_none() && r.cookiejar.is_empty() && r.custom_headers.is_empty());

    let r = scrappey_post_request("https://d.org/engine/start_download_timer", "torrent_id=1", Vec::new(), Some("UA/2".to_string()));
    assert_eq!(r.cmd, "request.post");
    assert_eq!(r.post_data.as_deref(), Some("torrent_id=1"));
    assert_eq!(
        r.custom_headers,
        vec![
            ("content-type".to_string(), "application/x-www-form-urlencoded".to_string()),
            ("x-requested-with".to_string(), "XMLHttpRequest".to_string()),
            ("user-agent".to_string(), "UA/2".to_string()),
        ]
    );
}
