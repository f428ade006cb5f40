use ygege::auth::{
    login_post_outcome, login_route, parse_session_cookies, scrappey_login_succeeded,
    session_file_path, session_still_valid, LoginBlock, LoginRefusal, LoginRoute,
};
use ygege::rest::bench::{bench_count, csv_header, csv_line};
use ygege::rest::infos::{probe_status, remaining_status, search_health, tmdb_status};
use ygege::rest::torrent::{
    attachment_disposition, binary_download_step, build_cookie_header, check_torrent_bytes,
    download_wait_secs, extract_token_from_json, redirected_download_error, referer,
    signed_download_url, token_json_is_cuttable, token_request_body, token_step, token_url,
    torrent_bytes_from_scrappey,
    url_host, BinaryStep, TokenError, TokenStep,
};
use ygege::scrappey::{
    extract_solution, fetch_step, scrappey_endpoint, session_from_response, FetchStep,
    ScrappeyCookie, ScrappeyFailure, ScrappeyRawCookie, ScrappeyRawSolution, ScrappeyResponse,
    ScrappeySolution,
};

fn cookie(name: &str, value: &str, domain: &str) -> ScrappeyCookie {
    ScrappeyCookie {
        name: name.to_string(),
        value: value.to_string(),
        domain: domain.to_string(),
        path: "/".to_string(),
    }
}

fn raw_solution() -> ScrappeyRawSolution {
    ScrappeyRawSolution {
        verified: true,
        current_url: "https://d/".to_string(),
        status_code: 200,
        user_agent: "UA".to_string(),
        response: "<html></html>".to_string(),
        cookies: vec![
            ScrappeyRawCookie {
                name: "ygg_".to_string(),
                value: "v".to_string(),
                domain: ".d".to_string(),
                path: String::new(),
            },
            ScrappeyRawCookie {
                name: "cf".to_string(),
                value: "w".to_string(),
                domain: "d".to_string(),
                path: "/x".to_string(),
            },
        ],
        cookie_string: String::new(),
        inner_text: String::new(),
    }
}

fn response(data: Option<&str>, error: Option<&str>, solution: bool) -> ScrappeyResponse {
    ScrappeyResponse {
        solution: if solution { Some(raw_solution()) } else { None },
        data: data.map(|s| s.to_string()),
        session: Some("sess-1".to_string()),
        error: error.map(|s| s.to_string()),
    }
}

#[test]
fn cookie_header_keeps_the_cookies_of_the_domain() {
    let cookies = vec![
        cookie("a", "1", ".yggtorrent.top"),
        cookie("z", "0", "other.com"),
        cookie("b", "2", "www.yggtorrent.top"),
        cookie("c", "3", "..yggtorrent.top"),
    ];
    assert_eq!(build_cookie_header(&cookies, "www.yggtorrent.top"), "a=1; b=2; c=3");
    assert_eq!(build_cookie_header(&cookies, "nowhere"), "");
    assert_eq!(build_cookie_header(&Vec::new(), "d"), "");
}

#[test]
fn a_saved_cookie_header_reads_back() {
    let cookies = vec![cookie("ygg_", "abc", ".d"), cookie("account_created", "true", ".d")];
    let header = build_cookie_header(&cookies, "www.d");
    assert_eq!(
        parse_session_cookies(&header),
        vec![
            ("ygg_".to_string(), "abc".to_string()),
            ("account_created".to_string(), "true".to_string())
        ]
    );
}

#[test]
fn session_cookies_skip_malformed_entries() {
    assert_eq!(
        parse_session_cookies("a=1; b = 2 ;bad; c=d=e; ;x="),
        vec![
            ("a".to_string(), "1".to_string()),
            ("b".to_string(), "2".to_string()),
            ("x".to_string(), String::new())
        ]
    );
    assert!(parse_session_cookies("").is_empty());
    assert_eq!(session_file_path("bob"), "sessions/bob.cookies");
}

#[test]
fn url_host_strips_the_scheme_and_path() {
    assert_eq!(url_host("https://www.ygg.top/engine/start_download_timer"), "www.ygg.top");
    assert_eq!(url_host("https://https://h/x"), "h");
    assert_eq!(url_host("plain"), "plain");
    assert_eq!(url_host("https://"), "");
}

#[test]
fn token_is_read_from_plain_or_wrapped_json() {
    assert_eq!(
        extract_token_from_json("<html><body><pre>{\"token\":\"abc\"}</pre></body></html>").unwrap(),
        "abc"
    );
    assert_eq!(extract_token_from_json("{\"token\":\"x\",\"n\":{\"k\":1}}").unwrap(), "x");
    assert!(matches!(extract_token_from_json("{\"other\":1}"), Err(TokenError::Missing)));
    assert!(matches!(extract_token_from_json("{\"token\":5}"), Err(TokenError::Missing)));
    assert!(matches!(extract_token_from_json("not json"), Err(TokenError::Json(_))));
    assert!(matches!(extract_token_from_json("}{"), Err(TokenError::Json(_))));
}

#[test]
fn download_urls_and_headers() {
    assert_eq!(token_url("d.org"), "https://d.org/engine/start_download_timer");
    assert_eq!(token_request_body(7), "torrent_id=7");
    assert_eq!(
        signed_download_url("d.org", 7, "tk"),
        "https://d.org/engine/download_torrent?id=7&token=tk"
    );
    assert_eq!(referer("d.org"), "https://d.org/");
    assert_eq!(attachment_disposition(1234), "attachment; filename=\"1234.torrent\"");
    assert_eq!(download_wait_secs(Some(true)), 5);
    assert_eq!(download_wait_secs(Some(false)), 35);
    assert_eq!(download_wait_secs(None), 35);
}

#[test]
fn torrent_bytes_are_checked() {
    assert_eq!(check_torrent_bytes(b""), Err("Downloaded torrent file is empty".to_string()));
    assert_eq!(
        check_torrent_bytes(b"<html>"),
        Err("Downloaded content is not a valid torrent file".to_string())
    );
    assert_eq!(check_torrent_bytes(b"d8:announce"), Ok(()));
}

#[test]
fn scrappey_bodies_are_decoded_from_base64_first() {
    assert_eq!(torrent_bytes_from_scrappey("ZDE6YWU=").unwrap(), b"d1:ae".to_vec());
    assert_eq!(torrent_bytes_from_scrappey("d8:announcé").unwrap(), "d8:announcé".as_bytes().to_vec());
    assert_eq!(
        torrent_bytes_from_scrappey(""),
        Err("Scrappey returned empty response for torrent download".to_string())
    );
}

#[test]
fn download_steps() {
    assert_eq!(binary_download_step(Some(200), false), BinaryStep::ReadBytes);
    assert_eq!(binary_download_step(Some(302), true), BinaryStep::CheckRemaining);
    assert_eq!(binary_download_step(Some(403), true), BinaryStep::UseScrappey);
    assert_eq!(binary_download_step(None, false), BinaryStep::FailedWithoutScrappey);
    assert_eq!(token_step(Some(204), false), TokenStep::ReadToken);
    assert_eq!(token_step(Some(503), true), TokenStep::UseScrappey);
    assert_eq!(token_step(None, false), TokenStep::FailedWithoutScrappey);
    assert_eq!(redirected_download_error(Ok(0)), "No remaining downloads");
    assert_eq!(
        redirected_download_error(Ok(3)),
        "Failed to download torrent, but you have remaining downloads."
    );
    assert_eq!(
        redirected_download_error(Err("x".to_string())),
        "Failed to download torrent and check remaining downloads."
    );
}

#[test]
fn scrappey_solutions_are_unpacked() {
    let s = extract_solution(response(Some("success"), None, true)).unwrap();
    assert_eq!(s.url, "https://d/");
    assert_eq!(s.status, 200);
    assert_eq!(s.user_agent, "UA");
    assert_eq!(s.cookies.len(), 2);
    assert_eq!(s.cookies[0].path, "/");
    assert_eq!(s.cookies[1].path, "/x");
    assert_eq!(s.cookies[0].domain, ".d");
    let direct = ScrappeySolution::from(raw_solution());
    assert_eq!(direct.response, "<html></html>");
    let c = ScrappeyCookie::from_raw(ScrappeyRawCookie {
        name: "n".to_string(),
        value: "v".to_string(),
        domain: String::new(),
        path: String::new(),
    });
    assert_eq!(c.path, "/");
}

#[test]
fn scrappey_failures_are_reported() {
    match extract_solution(response(Some("error"), Some("quota"), true)) {
        Err(ScrappeyFailure::Failed { message }) => assert_eq!(message, "Scrappey error: quota"),
        other => panic!("unexpected {:?}", other),
    }
    match extract_solution(response(None, None, false)) {
        Err(ScrappeyFailure::Failed { message }) => assert_eq!(message, "Scrappey error: Unknown error"),
        other => panic!("unexpected {:?}", other),
    }
    assert!(matches!(
        extract_solution(response(Some("success"), None, false)),
        Err(ScrappeyFailure::NoSolution)
    ));
}

#[test]
fn scrappey_sessions_and_endpoint() {
    assert_eq!(session_from_response(response(Some("success"), None, false)), Ok("sess-1".to_string()));
    let mut no_session = response(Some("success"), None, false);
    no_session.session = None;
    assert_eq!(
        session_from_response(no_session),
        Err("Scrappey did not return a session ID".to_string())
    );
    assert_eq!(
        session_from_response(response(Some("fail"), None, false)),
        Err("Scrappey session creation failed: Unknown error creating session".to_string())
    );
    assert_eq!(
        session_from_response(response(None, Some("bad key"), false)),
        Err("Scrappey session creation failed: bad key".to_string())
    );
    assert_eq!(scrappey_endpoint("k3y"), "https://publisher.scrappey.com/api/v1?key=k3y");
}

#[test]
fn page_fetch_steps() {
    assert_eq!(fetch_step(Some(200), false), FetchStep::ReadBody);
    assert_eq!(fetch_step(Some(299), true), FetchStep::ReadBody);
    for s in [302u16, 307, 403, 503] {
        assert_eq!(fetch_step(Some(s), true), FetchStep::UseScrappey);
        assert_eq!(fetch_step(Some(s), false), FetchStep::BlockedWithoutScrappey);
    }
    assert_eq!(fetch_step(Some(404), true), FetchStep::HttpError);
    assert_eq!(fetch_step(Some(500), false), FetchStep::HttpError);
    assert_eq!(fetch_step(None, true), FetchStep::UseScrappey);
    assert_eq!(fetch_step(None, false), FetchStep::FailedWithoutScrappey);
}

#[test]
fn login_routes() {
    assert_eq!(login_route(Some(200), true, false), LoginRoute::PostCredentials);
    assert_eq!(login_route(Some(200), true, true), LoginRoute::PostCredentials);
    assert_eq!(login_route(Some(200), false, true), LoginRoute::Scrappey);
    assert_eq!(login_route(Some(403), true, true), LoginRoute::Scrappey);
    assert_eq!(login_route(None, false, true), LoginRoute::Scrappey);
    assert_eq!(
        login_route(Some(403), true, false),
        LoginRoute::Blocked(LoginBlock::CloudflareWithoutScrappey)
    );
    assert_eq!(
        login_route(None, false, false),
        LoginRoute::Blocked(LoginBlock::CloudflareWithoutScrappey)
    );
    assert_eq!(
        login_route(Some(200), false, false),
        LoginRoute::Blocked(LoginBlock::NoCookieWithoutScrappey)
    );
}

#[test]
fn login_outcomes() {
    assert_eq!(login_post_outcome(200), Ok(()));
    assert_eq!(login_post_outcome(401), Err(LoginRefusal::InvalidCredentials));
    assert_eq!(login_post_outcome(500), Err(LoginRefusal::Status(500)));
    assert!(!scrappey_login_succeeded("https://d/auth/login?err=1"));
    assert!(scrappey_login_succeeded("https://d/"));
    assert!(session_still_valid(Some(200)));
    assert!(!session_still_valid(Some(302)));
    assert!(!session_still_valid(None));
}

#[test]
fn bench_report() {
    assert_eq!(bench_count("search_count=5&login_count=0", "search_count"), 5);
    assert_eq!(bench_count("search_count=5&login_count=0", "login_count"), 0);
    assert_eq!(bench_count("x=a", "domain_count"), 1);
    assert_eq!(bench_count("domain_count=abc", "domain_count"), 1);
    assert_eq!(csv_header(), "bench_name,metric,value\n");
    assert_eq!(csv_line("memory_usage", "b", "1024"), "memory_usage,b,1024\n");
}

#[test]
fn status_report() {
    let h = search_health(Ok(3));
    assert_eq!((h.auth, h.search, h.parsing), ("authenticated", "ok", "ok"));
    let h = search_health(Ok(0));
    assert_eq!((h.auth, h.search, h.parsing), ("authenticated", "ok", "failed"));
    let h = search_health(Err("Session expired, please log in".to_string()));
    assert_eq!((h.auth, h.search, h.parsing), ("not_authenticated", "ok", "n/a"));
    let h = search_health(Err("timeout".to_string()));
    assert_eq!((h.auth, h.search, h.parsing), ("auth_error", "failed", "n/a"));
    assert_eq!(probe_status(true), "ok");
    assert_eq!(probe_status(false), "failed");
    assert_eq!(tmdb_status(true), "enabled");
    assert_eq!(tmdb_status(false), "disabled");
    assert_eq!(remaining_status(Ok(5)), 5);
    assert_eq!(remaining_status(Err("x".to_string())), -1);
}

#[test]
fn token_json_can_be_cut_unless_braces_are_far_apart() {
    assert!(token_json_is_cuttable("{\"token\":1}"));
    assert!(token_json_is_cuttable("}{"));
    assert!(token_json_is_cuttable("no braces"));
    assert!(token_json_is_cuttable("only {"));
    assert!(!token_json_is_cuttable("}x{"));
    assert!(!token_json_is_cuttable("a} b {c"));
}
