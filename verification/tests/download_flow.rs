use ygege::rest::download::{
    download_is_expected, download_step, DownloadAction, DownloadEvent, DownloadFailure,
    DownloadSetup, DownloadState,
};
use ygege::scrappey::{ScrappeyCookie, ScrappeySolution};

fn setup(turbo: Option<bool>, scrappey: bool) -> DownloadSetup {
    DownloadSetup { domain: "d.org".to_string(), id: 42, turbo_enabled: turbo, scrappey_available: scrappey }
}

fn message(a: DownloadAction) -> String {
    match a {
        DownloadAction::Fail { failure: DownloadFailure::Message(m) } => m,
        other => panic!("expected a failure message, got {:?}", other),
    }
}

fn waiting(token: &str) -> DownloadState {
    DownloadState::Waiting { token: token.to_string(), cookies: None, user_agent: None }
}

fn downloading() -> DownloadState {
    DownloadState::Downloading { url: "https://d.org/engine/download_torrent?id=42&token=tk".to_string() }
}

#[test]
fn a_direct_download() {
    let s = setup(None, false);
    let (st, a) = download_step(&s, DownloadState::Start, DownloadEvent::Started);
    match a {
        DownloadAction::PostToken { url, body } => {
            assert_eq!(url, "https://d.org/engine/start_download_timer");
            assert_eq!(body, "torrent_id=42");
        }
        other => panic!("{:?}", other),
    }
    let (st, a) = download_step(&s, st, DownloadEvent::TokenPosted { status: Some(200) });
    assert!(matches!(a, DownloadAction::ReadTokenAnswer));
    let (st, a) = download_step(&s, st, DownloadEvent::TokenAnswer { result: Ok("{\"token\":\"tk\"}".to_string()) });
    assert!(matches!(a, DownloadAction::Wait { secs: 35 }));
    assert!(matches!(st, DownloadState::Waiting { ref token, cookies: None, user_agent: None } if token == "tk"));
    let (st, a) = download_step(&s, st, DownloadEvent::Waited);
    match a {
        DownloadAction::RequestFile { url, cookies, user_agent, referer } => {
            assert_eq!(url, "https://d.org/engine/download_torrent?id=42&token=tk");
            assert_eq!((cookies, user_agent), (None, None));
            assert_eq!(referer, "https://d.org/");
        }
        other => panic!("{:?}", other),
    }
    let (st, a) = download_step(&s, st, DownloadEvent::FileRequested { status: Some(200) });
    assert!(matches!(a, DownloadAction::ReadFile));
    let (st, a) = download_step(&s, st, DownloadEvent::FileRead { result: Ok(b"d8:announce".to_vec()) });
    assert!(matches!(st, DownloadState::Finished));
    match a {
        DownloadAction::Respond { bytes, disposition } => {
            assert_eq!(bytes, b"d8:announce".to_vec());
            assert_eq!(disposition, "attachment; filename=\"42.torrent\"");
        }
        other => panic!("{:?}", other),
    }
}

#[test]
fn a_token_through_scrappey() {
    let s = setup(Some(true), true);
    let (st, a) = download_step(&s, DownloadState::PostingToken, DownloadEvent::TokenPosted { status: Some(403) });
    assert!(matches!(a, DownloadAction::PostTokenViaScrappey { .. }));
    let solution = ScrappeySolution {
        url: "https://d.org/".to_string(),
        status: 200,
        cookies: vec![
            ScrappeyCookie { name: "cf".to_string(), value: "1".to_string(), domain: ".d.org".to_string(), path: "/".to_string() },
            ScrappeyCookie { name: "x".to_string(), value: "2".to_string(), domain: "other".to_string(), path: "/".to_string() },
        ],
        user_agent: "UA".to_string(),
        response: "<pre>{\"token\":\"abc\"}</pre>".to_string(),
    };
    let (st, a) = download_step(&s, st, DownloadEvent::ScrappeyTokenAnswer { result: Ok(solution) });
    assert!(matches!(a, DownloadAction::Wait { secs: 5 }));
    let (_, a) = download_step(&s, st, DownloadEvent::Waited);
    match a {
        DownloadAction::RequestFile { url, cookies, user_agent, .. } => {
            assert_eq!(url, "https://d.org/engine/download_torrent?id=42&token=abc");
            assert_eq!(cookies.as_deref(), Some("cf=1"));
            assert_eq!(user_agent.as_deref(), Some("UA"));
        }
        other => panic!("{:?}", other),
    }
}

#[test]
fn token_failures() {
    let s = setup(None, false);
    let (_, a) = download_step(&s, DownloadState::PostingToken, DownloadEvent::TokenPosted { status: None });
    assert_eq!(message(a), "CF blocked token request and Scrappey not configured");
    let (_, a) = download_step(&s, DownloadState::ReadingTokenAnswer, DownloadEvent::TokenAnswer {
        result: Ok("{\"other\":1}".to_string()),
    });
    assert_eq!(message(a), "Token not found in start_download_timer response");
    let (_, a) = download_step(&s, DownloadState::ReadingTokenAnswer, DownloadEvent::TokenAnswer {
        result: Ok("not json".to_string()),
    });
    assert!(matches!(a, DownloadAction::Fail { failure: DownloadFailure::TokenJson { ref raw, .. } } if raw == "not json"));
    let (_, a) = download_step(&s, DownloadState::ReadingTokenAnswer, DownloadEvent::TokenAnswer {
        result: Err("reset".to_string()),
    });
    assert_eq!(message(a), "reset");
    let (_, a) = download_step(&s, DownloadState::PostingTokenViaScrappey, DownloadEvent::ScrappeyTokenAnswer {
        result: Err("Scrappey error: quota".to_string()),
    });
    assert_eq!(message(a), "Scrappey error: quota");
}

#[test]
fn file_failures_and_fallbacks() {
    let s = setup(None, false);
    let (st, a) = download_step(&s, downloading(), DownloadEvent::FileRequested { status: Some(302) });
    assert!(matches!(a, DownloadAction::CheckRemaining));
    let (_, a) = download_step(&s, st, DownloadEvent::RemainingRead { result: Ok(0) });
    assert_eq!(message(a), "No remaining downloads");
    let (_, a) = download_step(&s, DownloadState::CheckingRemaining, DownloadEvent::RemainingRead { result: Ok(9) });
    assert_eq!(message(a), "Failed to download torrent, but you have remaining downloads.");
    let (_, a) = download_step(&s, downloading(), DownloadEvent::FileRequested { status: Some(403) });
    assert_eq!(message(a), "Torrent download failed and Scrappey not configured");
    let (_, a) = download_step(&s, DownloadState::ReadingFile, DownloadEvent::FileRead { result: Ok(Vec::new()) });
    assert_eq!(message(a), "Downloaded torrent file is empty");
    let (_, a) = download_step(&s, DownloadState::ReadingFile, DownloadEvent::FileRead { result: Ok(b"<html>".to_vec()) });
    assert!(matches!(a, DownloadAction::Fail { failure: DownloadFailure::InvalidContent { ref bytes } } if bytes == b"<html>"));

    let s = setup(None, true);
    let (st, a) = download_step(&s, downloading(), DownloadEvent::FileRequested { status: None });
    match a {
        DownloadAction::FetchScrappeyCookies { url } => {
            assert_eq!(url, "https://d.org/engine/download_torrent?id=42&token=tk")
        }
        other => panic!("{:?}", other),
    }
    assert!(download_is_expected(&st, &DownloadEvent::ScrappeyCookies { result: Err("x".to_string()) }));
    let (_, a) = download_step(&s, st, DownloadEvent::ScrappeyCookies { result: Err("Scrappey error: quota".to_string()) });
    assert_eq!(message(a), "Scrappey error: quota");
}

fn fetching_cookies() -> DownloadState {
    DownloadState::FetchingScrappeyCookies { url: "https://d.org/engine/download_torrent?id=42&token=tk".to_string() }
}

fn browser_solution(page: &str) -> ScrappeySolution {
    ScrappeySolution {
        url: "https://d.org/engine/download_torrent?id=42&token=tk".to_string(),
        status: 200,
        response: page.to_string(),
        cookies: vec![
            ScrappeyCookie {
                name: "cf_clearance".to_string(),
                value: "abc".to_string(),
                domain: ".d.org".to_string(),
                path: "/".to_string(),
            },
            ScrappeyCookie {
                name: "other".to_string(),
                value: "x".to_string(),
                domain: "elsewhere.net".to_string(),
                path: "/".to_string(),
            },
        ],
        user_agent: "Browser/1.0".to_string(),
    }
}

#[test]
fn a_failed_download_is_retried_with_scrappey_cookies() {
    let s = setup(None, true);
    let (st, a) = download_step(&s, fetching_cookies(), DownloadEvent::ScrappeyCookies { result: Ok(browser_solution("")) });
    match a {
        DownloadAction::RequestFile { url, cookies, user_agent, referer } => {
            assert_eq!(url, "https://d.org/engine/download_torrent?id=42&token=tk");
            assert_eq!(cookies, Some("cf_clearance=abc".to_string()));
            assert_eq!(user_agent, Some("Browser/1.0".to_string()));
            assert_eq!(referer, "https://d.org/");
        }
        other => panic!("{:?}", other),
    }
    assert!(download_is_expected(&st, &DownloadEvent::FileRequested { status: Some(200) }));
    let (st, a) = download_step(&s, st, DownloadEvent::FileRequested { status: Some(200) });
    assert!(matches!(a, DownloadAction::ReadFile));
    let (_, a) = download_step(&s, st, DownloadEvent::FileRead { result: Ok(b"d1:ae".to_vec()) });
    assert!(matches!(a, DownloadAction::Respond { ref bytes, .. } if bytes == b"d1:ae"));

    let (st, _) = download_step(&s, fetching_cookies(), DownloadEvent::ScrappeyCookies { result: Ok(browser_solution("")) });
    let (_, a) = download_step(&s, st, DownloadEvent::FileRequested { status: Some(302) });
    assert!(matches!(a, DownloadAction::CheckRemaining));
}

#[test]
fn a_failed_retry_falls_back_on_the_scrappey_page() {
    let s = setup(None, true);
    let (st, _) = download_step(&s, fetching_cookies(), DownloadEvent::ScrappeyCookies { result: Ok(browser_solution("ZDE6YWU=")) });
    let (_, a) = download_step(&s, st, DownloadEvent::FileRequested { status: Some(403) });
    assert!(matches!(a, DownloadAction::Respond { ref bytes, .. } if bytes == b"d1:ae"));
    let (_, a) = download_step(&s, DownloadState::Retrying { page: String::new() }, DownloadEvent::FileRequested { status: None });
    assert_eq!(message(a), "Scrappey returned empty response for torrent download");
}

#[test]
fn download_events_must_fit_the_state() {
    assert!(download_is_expected(&DownloadState::Start, &DownloadEvent::Started));
    assert!(download_is_expected(&waiting("t"), &DownloadEvent::Waited));
    assert!(!download_is_expected(&DownloadState::Finished, &DownloadEvent::Waited));
    assert!(!download_is_expected(&DownloadState::ReadingTokenAnswer, &DownloadEvent::TokenAnswer {
        result: Ok("}x{".to_string()),
    }));
    assert!(download_is_expected(&DownloadState::ReadingTokenAnswer, &DownloadEvent::TokenAnswer {
        result: Ok("}{".to_string()),
    }));
}
