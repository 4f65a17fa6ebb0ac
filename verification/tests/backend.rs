use valorant_watcher::backend::normalize_base_url;
use valorant_watcher::backend::scope_name;
use valorant_watcher::backend::token_reply;
use valorant_watcher::backend::Backend;
use valorant_watcher::backend::BackendAuthError;
use valorant_watcher::backend::LoginProof;
use valorant_watcher::backend::TokenPair;
use valorant_watcher::http::is_success;
use valorant_watcher::http::Method;
use valorant_watcher::token_flow::pause_before_refresh;
use valorant_watcher::token_flow::AppTokenAction;
use valorant_watcher::token_flow::AppTokenEvent;
use valorant_watcher::token_flow::GameTokenAction;
use valorant_watcher::token_flow::GameTokenEvent;
use valorant_watcher::token_flow::GameTokenFlow;
use valorant_watcher::token_flow::RefreshAction;
use valorant_watcher::token_flow::RefreshEvent;

const NOW: i64 = 1_700_000_000;

fn pair(name: &str, access_in: i64, refresh_in: i64) -> TokenPair {
    TokenPair {
        access_token: format!("{name}-access"),
        access_token_expires_at: NOW + access_in,
        refresh_token: format!("{name}-refresh"),
        refresh_token_expires_at: NOW + refresh_in,
    }
}

fn refused(code: &str) -> BackendAuthError {
    BackendAuthError { status_code: Some(401), error_code: Some(code.to_string()) }
}

fn login() -> LoginProof {
    LoginProof {
        provider: "discord".to_string(),
        provider_id: "42".to_string(),
        access_token: "t".to_string(),
    }
}

fn header(name: &str, value: &str) -> (String, String) {
    (name.to_string(), value.to_string())
}

#[test]
fn base_urls_are_normalized() {
    assert_eq!(normalize_base_url(" https://a.example// "), "https://a.example");
    assert_eq!(normalize_base_url("http://a"), "http://a");
    assert_eq!(normalize_base_url("a.example:80/"), "http://a.example:80");
    assert_eq!(normalize_base_url("ftp://a"), "http://ftp://a");
    assert_eq!(normalize_base_url("/"), "http://");
    assert_eq!(Backend::new("a/").base_url(), "http://a");
}

#[test]
fn scopes_have_names() {
    assert_eq!(scope_name(true), "app");
    assert_eq!(scope_name(false), "game");
}

#[test]
fn success_is_the_two_hundreds() {
    assert!(!is_success(199));
    assert!(is_success(200));
    assert!(is_success(299));
    assert!(!is_success(300));
}

#[test]
fn expiry_is_a_minute_early() {
    let pair = pair("a", 100, 60);
    assert_eq!(pair.access_expires_in(NOW), 100);
    assert_eq!(pair.refresh_expires_in(NOW), 60);
    assert!(pair.is_refresh_expired(NOW));
    assert!(!pair.is_refresh_expired(NOW - 1));
}

#[test]
fn dead_tokens_are_told_from_other_failures() {
    for code in [
        "REFRESH_TOKEN_EXPIRED",
        "TOKEN_DECODE_ERROR",
        "WRONG_TOKEN_TYPE",
        "WRONG_TOKEN_SCOPE",
        "USER_NOT_FOUND",
        "USER_IS_BANNED",
    ] {
        assert!(refused(code).is_dead_token());
    }
    assert!(!refused("OTHER").is_dead_token());
    assert!(!BackendAuthError { status_code: Some(500), error_code: None }.is_dead_token());
    let e = BackendAuthError::network("USER_IS_BANNED");
    assert_eq!(e.error_code.as_deref(), Some("NETWORK_ERROR: USER_IS_BANNED"));
    assert_eq!(e.status_code, None);
    assert!(!e.is_dead_token());
}

#[test]
fn submissions_need_a_bound_game_token() {
    let mut backend = Backend::new("https://s");
    assert!(backend.game_headers().is_none());
    assert!(backend.submit("/v1/x", "{}").is_none());
    backend.tokens.game = Some(pair("game", 100, 1000));
    assert!(backend.submit("/v1/x", "{}").is_none());
    backend.tokens.bound_puuid = Some("p".to_string());
    backend.tokens.bound_shard = Some("eu".to_string());
    let request = backend.submit("/v1/x", "{ raw }").unwrap();
    assert_eq!(request.method, Method::Post);
    assert_eq!(request.url, "https://s/v1/x");
    assert_eq!(request.body.as_deref(), Some("{ raw }"));
    assert_eq!(
        request.headers,
        vec![
            header("Content-Type", "application/json"),
            header("Authorization", "Bearer game-access"),
            header("puuid", "p"),
            header("shard", "eu"),
        ]
    );
    assert_eq!(backend.game_headers().unwrap().len(), 3);
    backend.clear_game_token();
    assert!(backend.submit("/v1/x", "{}").is_none());
}

#[test]
fn token_requests_are_made() {
    let backend = Backend::new("https://s");
    let request = backend.post_login("hw", &login());
    assert_eq!(request.url, "https://s/v1/login");
    assert_eq!(
        request.body.as_deref(),
        Some(r#"{"access_token":"t","hwid":"hw","provider":"discord","provider_id":"42"}"#)
    );
    assert_eq!(request.headers, vec![header("Content-Type", "application/json")]);
    let request = backend.post_game_token("acc", "p", "eu");
    assert_eq!(request.url, "https://s/v1/auth/game-token");
    assert_eq!(request.body.as_deref(), Some(r#"{"puuid":"p","shard":"eu"}"#));
    assert_eq!(
        request.headers,
        vec![header("Content-Type", "application/json"), header("Authorization", "Bearer acc")]
    );
    let request = backend.post_refresh_app("r\"");
    assert_eq!(request.url, "https://s/v1/auth/refresh/app");
    assert_eq!(request.body.as_deref(), Some(r#"{"refresh_token":"r\""}"#));
    let request = backend.post_refresh_game("r");
    assert_eq!(request.url, "https://s/v1/auth/refresh/game");
}

#[test]
fn token_replies() {
    let granted = token_reply(200, None, Ok(pair("a", 1, 2))).ok().unwrap();
    assert_eq!(granted.access_token, "a-access");
    let e = token_reply(200, None, Err("eof".to_string())).err().unwrap();
    assert_eq!(e.status_code, None);
    assert_eq!(
        e.error_code.as_deref(),
        Some("NETWORK_ERROR: malformed token response: eof")
    );
    let e = token_reply(403, Some("USER_IS_BANNED".to_string()), Ok(pair("a", 1, 2))).err().unwrap();
    assert_eq!(e.status_code, Some(403));
    assert!(e.is_dead_token());
    let e = token_reply(500, None, Err("x".to_string())).err().unwrap();
    assert_eq!(e.status_code, Some(500));
    assert_eq!(e.error_code, None);
}

#[test]
fn held_app_token_is_enough() {
    let mut backend = Backend::new("s");
    backend.tokens.app = Some(pair("app", 0, 61));
    let action = backend.ensure_app_token(AppTokenEvent::Asked { now: NOW });
    assert!(matches!(action, AppTokenAction::Finish(true)));
    let action = backend.ensure_app_token(AppTokenEvent::Asked { now: NOW + 1 });
    assert!(matches!(action, AppTokenAction::Load));
}

#[test]
fn stored_app_token_is_renewed() {
    let mut backend = Backend::new("s");
    assert!(matches!(
        backend.ensure_app_token(AppTokenEvent::Asked { now: NOW }),
        AppTokenAction::Load
    ));
    match backend.ensure_app_token(AppTokenEvent::Loaded {
        stored: Some(pair("old", 0, 1000)),
        now: NOW,
    }) {
        AppTokenAction::Refresh { refresh_token } => assert_eq!(refresh_token, "old-refresh"),
        _ => panic!("expected a refresh"),
    }
    assert!(matches!(
        backend.ensure_app_token(AppTokenEvent::Refreshed(Ok(pair("new", 100, 1000)))),
        AppTokenAction::Save
    ));
    assert_eq!(backend.session_to_store().unwrap().access_token, "new-access");
    assert_eq!(backend.app_access_token().as_deref(), Some("new-access"));
    assert!(matches!(
        backend.ensure_app_token(AppTokenEvent::Saved),
        AppTokenAction::Finish(true)
    ));
}

#[test]
fn failed_renewal_asks_for_a_login_only_when_dead() {
    let mut backend = Backend::new("s");
    assert!(matches!(
        backend.ensure_app_token(AppTokenEvent::Refreshed(Err(BackendAuthError::network("x")))),
        AppTokenAction::Finish(false)
    ));
    assert!(matches!(
        backend.ensure_app_token(AppTokenEvent::Refreshed(Err(refused("REFRESH_TOKEN_EXPIRED")))),
        AppTokenAction::Prove
    ));
    assert!(matches!(
        backend.ensure_app_token(AppTokenEvent::Loaded {
            stored: Some(pair("old", 0, 60)),
            now: NOW
        }),
        AppTokenAction::Prove
    ));
    assert!(matches!(
        backend.ensure_app_token(AppTokenEvent::Loaded { stored: None, now: NOW }),
        AppTokenAction::Prove
    ));
    assert!(backend.session_to_store().is_none());
}

#[test]
fn login_needs_a_hardware_identifier_and_drops_the_game_token() {
    let mut backend = Backend::new("s");
    backend.tokens.game = Some(pair("game", 1, 2));
    backend.tokens.bound_puuid = Some("p".to_string());
    backend.tokens.bound_shard = Some("eu".to_string());
    assert!(matches!(
        backend.ensure_app_token(AppTokenEvent::Proved(Some(login()))),
        AppTokenAction::Finish(false)
    ));
    backend.set_hwid("hw".to_string());
    assert!(matches!(
        backend.ensure_app_token(AppTokenEvent::Proved(None)),
        AppTokenAction::Finish(false)
    ));
    match backend.ensure_app_token(AppTokenEvent::Proved(Some(login()))) {
        AppTokenAction::Login { hwid, login } => {
            assert_eq!(hwid, "hw");
            assert_eq!(login.provider_id, "42");
        }
        _ => panic!("expected a login"),
    }
    assert!(matches!(
        backend.ensure_app_token(AppTokenEvent::LoggedIn(Err(refused("OTHER")))),
        AppTokenAction::Finish(false)
    ));
    assert!(backend.game_headers().is_some());
    assert!(matches!(
        backend.ensure_app_token(AppTokenEvent::LoggedIn(Ok(pair("app", 100, 1000)))),
        AppTokenAction::Save
    ));
    assert!(backend.game_headers().is_none());
    assert!(backend.tokens.bound_puuid.is_none());
    assert_eq!(backend.app_access_token().as_deref(), Some("app-access"));
}

#[test]
fn game_token_needs_an_app_token() {
    let mut backend = Backend::new("s");
    let mut flow = GameTokenFlow::new("p", "eu");
    assert!(matches!(
        backend.ensure_game_token(&mut flow, GameTokenEvent::Asked { now: NOW }),
        GameTokenAction::Finish(false)
    ));
}

#[test]
fn game_token_is_minted_and_renewed() {
    let mut backend = Backend::new("s");
    backend.tokens.app = Some(pair("app", 100, 1000));
    let mut flow = GameTokenFlow::new("p", "eu");
    match backend.ensure_game_token(&mut flow, GameTokenEvent::Asked { now: NOW }) {
        GameTokenAction::Mint { app_access, puuid, shard } => {
            assert_eq!(app_access, "app-access");
            assert_eq!(puuid, "p");
            assert_eq!(shard, "eu");
        }
        _ => panic!("expected a new token"),
    }
    assert!(matches!(
        backend.ensure_game_token(&mut flow, GameTokenEvent::Minted(Ok(pair("game", 50, 1000)))),
        GameTokenAction::Save
    ));
    assert!(matches!(
        backend.ensure_game_token(&mut flow, GameTokenEvent::Saved),
        GameTokenAction::Finish(true)
    ));
    assert!(backend.game_headers().is_some());

    let mut other = GameTokenFlow::new("p", "na");
    assert!(matches!(
        backend.ensure_game_token(&mut other, GameTokenEvent::Asked { now: NOW }),
        GameTokenAction::Mint { .. }
    ));
    let mut again = GameTokenFlow::new("p", "eu");
    match backend.ensure_game_token(&mut again, GameTokenEvent::Asked { now: NOW }) {
        GameTokenAction::Refresh { refresh_token } => assert_eq!(refresh_token, "game-refresh"),
        _ => panic!("expected a refresh"),
    }
    assert!(matches!(
        backend.ensure_game_token(&mut again, GameTokenEvent::Refreshed(Err(refused("OTHER")))),
        GameTokenAction::Mint { .. }
    ));
    assert!(backend.tokens.game.is_none());
    assert!(matches!(
        backend.ensure_game_token(&mut again, GameTokenEvent::Minted(Err(refused("OTHER")))),
        GameTokenAction::Finish(false)
    ));
    assert!(backend.tokens.bound_puuid.is_none());
    assert!(backend.tokens.app.is_some());
    assert!(matches!(
        backend.ensure_game_token(&mut again, GameTokenEvent::Refreshed(Ok(pair("g", 1, 2)))),
        GameTokenAction::Save
    ));
}

#[test]
fn refreshes_are_planned_at_three_quarters() {
    let pause = pause_before_refresh(3600);
    assert_eq!((pause.secs, pause.millis), (2700, 0));
    let pause = pause_before_refresh(41);
    assert_eq!((pause.secs, pause.millis), (30, 750));
    let pause = pause_before_refresh(40);
    assert_eq!((pause.secs, pause.millis), (30, 0));
    let pause = pause_before_refresh(-5);
    assert_eq!((pause.secs, pause.millis), (30, 0));
}

#[test]
fn token_that_is_due_first_is_renewed() {
    let mut backend = Backend::new("s");
    assert!(matches!(
        backend.proactive_refresh_loop(RefreshEvent::Woken { now: NOW }),
        RefreshAction::Rest { secs: 60 }
    ));
    backend.tokens.app = Some(pair("app", 400, 1000));
    match backend.proactive_refresh_loop(RefreshEvent::Woken { now: NOW }) {
        RefreshAction::Sleep { pause, refresh_app } => {
            assert!(refresh_app);
            assert_eq!((pause.secs, pause.millis), (300, 0));
        }
        _ => panic!("expected a pause"),
    }
    backend.tokens.game = Some(pair("game", 200, 1000));
    match backend.proactive_refresh_loop(RefreshEvent::Woken { now: NOW }) {
        RefreshAction::Sleep { pause, refresh_app } => {
            assert!(!refresh_app);
            assert_eq!((pause.secs, pause.millis), (150, 0));
        }
        _ => panic!("expected a pause"),
    }
    match backend.proactive_refresh_loop(RefreshEvent::Slept { refresh_app: false }) {
        RefreshAction::Refresh { refresh_app, refresh_token } => {
            assert!(!refresh_app);
            assert_eq!(refresh_token, "game-refresh");
        }
        _ => panic!("expected a refresh"),
    }
    assert!(matches!(
        backend.proactive_refresh_loop(RefreshEvent::Refreshed {
            refresh_app: false,
            reply: Ok(pair("new", 500, 1000))
        }),
        RefreshAction::Save
    ));
    assert_eq!(backend.tokens.game.as_ref().unwrap().access_token, "new-access");
    assert!(matches!(
        backend.proactive_refresh_loop(RefreshEvent::Saved),
        RefreshAction::Plan
    ));
}

#[test]
fn failed_proactive_refreshes() {
    let mut backend = Backend::new("s");
    assert!(matches!(
        backend.proactive_refresh_loop(RefreshEvent::Slept { refresh_app: false }),
        RefreshAction::Plan
    ));
    assert!(matches!(
        backend.proactive_refresh_loop(RefreshEvent::Slept { refresh_app: true }),
        RefreshAction::Rest { secs: 60 }
    ));
    backend.tokens.app = Some(pair("app", 400, 1000));
    backend.tokens.game = Some(pair("game", 400, 1000));
    assert!(matches!(
        backend.proactive_refresh_loop(RefreshEvent::Refreshed {
            refresh_app: true,
            reply: Err(BackendAuthError::network("down"))
        }),
        RefreshAction::Rest { secs: 60 }
    ));
    assert!(backend.tokens.app.is_some());
    assert!(matches!(
        backend.proactive_refresh_loop(RefreshEvent::Rested),
        RefreshAction::Plan
    ));
    assert!(matches!(
        backend.proactive_refresh_loop(RefreshEvent::Refreshed {
            refresh_app: true,
            reply: Err(refused("USER_IS_BANNED"))
        }),
        RefreshAction::Rest { secs: 60 }
    ));
    assert!(backend.tokens.app.is_none());
    assert!(backend.tokens.game.is_none());
    assert!(matches!(
        backend.proactive_refresh_loop(RefreshEvent::Rested),
        RefreshAction::Plan
    ));
    assert!(matches!(
        backend.proactive_refresh_loop(RefreshEvent::Woken { now: NOW }),
        RefreshAction::Rest { secs: 60 }
    ));
    backend.tokens.app = Some(pair("app", 400, 1000));
    assert!(matches!(
        backend.proactive_refresh_loop(RefreshEvent::Woken { now: NOW }),
        RefreshAction::Sleep { refresh_app: true, .. }
    ));
}
