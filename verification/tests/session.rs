use valorant_watcher::clock::Elapsed;
use valorant_watcher::error::Error;
use valorant_watcher::fetch::check_entitlements_status;
use valorant_watcher::fetch::is_claims_rejected;
use valorant_watcher::fetch::needs_refresh;
use valorant_watcher::fetch::AttemptOutcome;
use valorant_watcher::fetch::Attempts;
use valorant_watcher::fetch::FetchAction;
use valorant_watcher::fetch::FetchEvent;
use valorant_watcher::fetch::FetchFlow;
use valorant_watcher::http::Method;
use valorant_watcher::json;
use valorant_watcher::json::Json;
use valorant_watcher::lockfile::Lockfile;
use valorant_watcher::session::decode_jwt_exp;
use valorant_watcher::session::expiry_claim_of;
use valorant_watcher::session::parse_region;
use valorant_watcher::session::parse_version;
use valorant_watcher::session::region_of;
use valorant_watcher::session::version_of;
use valorant_watcher::session::wait_for_entitlements;
use valorant_watcher::session::Api;
use valorant_watcher::session::AuthAction;
use valorant_watcher::session::AuthEvent;
use valorant_watcher::session::EntitlementsResponse;
use valorant_watcher::session::Expiry;
use valorant_watcher::session::Region;
use valorant_watcher::session::Session;
use valorant_watcher::session::CLIENT_PLATFORM;
use valorant_watcher::session::RATELIMIT_COOLDOWN_NANOS;
use valorant_watcher::session::USER_AGENT;

const TOKEN: &str = "eyJhbGciOiJub25lIn0.eyJleHAiOjE3MDAwMDAwMDAsInN1YiI6InAifQ.sig";

const LOG: &str = "start\r\nLogHttp: https://glz-latam-1.na.a.pvp.net/x\nLogHttp: https://pd.na.a.pvp.net/other\nLogHttp: https://pd.latam.a.pvp.net/account-xp/v1/players/1\nhttps://glz-eu-1.eu.a.pvp.net https://pd.eu.a.pvp.net/account-xp/v1/\nLogShooter: CI server version: release-10.05-5-3376352\r\n";

fn some(s: &str) -> Option<String> {
    Some(s.to_string())
}

fn answer(access: Option<&str>, token: Option<&str>, message: Option<&str>) -> EntitlementsResponse {
    EntitlementsResponse {
        access_token: access.map(str::to_string),
        token: token.map(str::to_string),
        subject: None,
        message: message.map(str::to_string),
    }
}

fn session() -> Session {
    Session::new(Lockfile::parse("c:1:5000:pw:https").unwrap())
}

fn authenticated() -> Session {
    let mut session = session();
    let region = parse_region(LOG).unwrap();
    assert!(matches!(
        session.authenticate(AuthEvent::Located(region)),
        AuthAction::Ask { wait_secs: 0 }
    ));
    let mut data = answer(Some(TOKEN), Some("ent"), None);
    data.subject = some("me");
    assert!(matches!(
        session.authenticate(AuthEvent::Entitled { data, clock: None }),
        AuthAction::FindVersion
    ));
    assert!(matches!(
        session.authenticate(AuthEvent::Versioned("v1".to_string())),
        AuthAction::Done
    ));
    session
}

#[test]
fn region_is_found_in_the_log() {
    let region = parse_region(LOG).unwrap();
    assert_eq!(region.pd_shard, "latam");
    assert_eq!(region.glz_shard, "latam-1");
    assert_eq!(region.glz_region, "na");
    assert!(parse_region("https://glz-eu-1.eu.a.pvp.net").is_none());
    assert!(parse_region("https://pd.eu.a.pvp.net/account-xp/v1/").is_none());
    assert!(parse_region("").is_none());
}

#[test]
fn test_environment_lies_in_north_america() {
    let region = region_of(some("pbe"), some("pbe-1"), some("pbe")).unwrap();
    assert_eq!(region.pd_shard, "na");
    assert_eq!(region.glz_shard, "na-1");
    assert_eq!(region.glz_region, "na");
    assert!(region_of(some("eu"), None, some("eu")).is_none());
}

#[test]
fn version_is_found_in_the_log() {
    assert_eq!(parse_version(LOG), some("release-10.05-shipping-5-3376352"));
    assert_eq!(parse_version("no version"), None);
    assert_eq!(version_of(" release-10.05-shipping-5 "), "release-10.05-shipping-5");
    assert_eq!(version_of("release"), "release");
    assert_eq!(version_of("release-1"), "release-1-shipping");
    assert_eq!(version_of("xshipping-1-2"), "xshipping-1-shipping-2");
}

#[test]
fn token_expiry_is_decoded() {
    assert_eq!(decode_jwt_exp(TOKEN).unwrap().as_f64(), Some(1_700_000_000.0));
    assert_eq!(
        decode_jwt_exp("eyJhbGciOiJub25lIn0.eyJleHAiOjE3MDAwMDAwMDAuNX0.sig").unwrap().as_f64(),
        Some(1_700_000_000.5)
    );
    assert!(decode_jwt_exp("eyJhbGciOiJub25lIn0.eyJzdWIiOiJwIn0.sig").is_none());
    assert!(decode_jwt_exp("no dots").is_none());
    assert!(decode_jwt_exp("a.!!!.c").is_none());
    assert!(decode_jwt_exp("a.YWJj.c").is_none());
    assert!(expiry_claim_of(json::parse(r#"{"exp":"1"}"#).unwrap()).is_none());
    assert!(expiry_claim_of(json::parse(r#"{"exp":1}"#).unwrap()).is_some());
}

#[test]
fn entitlements_are_waited_for() {
    assert_eq!(wait_for_entitlements(&answer(Some("a"), Some("b"), None)), None);
    assert_eq!(wait_for_entitlements(&answer(Some("a"), Some("b"), Some("other"))), None);
    assert_eq!(
        wait_for_entitlements(&answer(
            Some("a"),
            Some("b"),
            Some("Entitlements token is not ready yet")
        )),
        Some(1)
    );
    assert_eq!(
        wait_for_entitlements(&answer(Some("a"), Some("b"), Some("Invalid URI format"))),
        Some(5)
    );
    assert_eq!(wait_for_entitlements(&answer(Some("a"), None, None)), Some(1));
    assert_eq!(wait_for_entitlements(&answer(None, Some("b"), None)), Some(1));
}

#[test]
fn session_is_authenticated() {
    let session = authenticated();
    assert_eq!(session.puuid(), "me");
    assert_eq!(session.region().pd_shard, "latam");
    assert_eq!(session.base_urls.pd, "https://pd.latam.a.pvp.net");
    assert_eq!(session.base_urls.glz, "https://glz-latam-1.na.a.pvp.net");
    assert_eq!(session.base_urls.shared, "https://shared.latam.a.pvp.net");
    assert_eq!(session.base_urls.local, "https://127.0.0.1:5000");
    assert_eq!(session.state.access_token, TOKEN);
    assert_eq!(session.state.entitlements_token, "ent");
    assert_eq!(session.state.client_version, "v1");
    match session.state.expires_at {
        Some(Expiry::Claimed(n)) => assert_eq!(n.as_f64(), Some(1_700_000_000.0)),
        _ => panic!("expected the token's own expiry"),
    }
}

#[test]
fn authentication_waits_and_keeps_order() {
    let mut session = session();
    assert!(matches!(
        session.authenticate(AuthEvent::Versioned("v".to_string())),
        AuthAction::OutOfOrder
    ));
    assert!(matches!(
        session.authenticate(AuthEvent::Entitled {
            data: answer(None, None, Some("Invalid URI format")),
            clock: None
        }),
        AuthAction::Ask { wait_secs: 5 }
    ));
    assert!(matches!(
        session.authenticate(AuthEvent::Entitled {
            data: answer(Some("opaque"), Some("b"), None),
            clock: Some(Elapsed { secs: 7, nanos: 0 })
        }),
        AuthAction::FindVersion
    ));
    session.authenticate(AuthEvent::Versioned("v".to_string()));
    assert_eq!(session.puuid(), "");
    assert!(matches!(
        session.state.expires_at,
        Some(Expiry::HourAfter(Some(Elapsed { secs: 7, nanos: 0 })))
    ));
}

fn header(name: &str, value: &str) -> (String, String) {
    (name.to_string(), value.to_string())
}

#[test]
fn remote_requests_are_authenticated() {
    let session = authenticated();
    let request = session.send(Method::Get, Api::Glz, "/x", None);
    assert_eq!(request.method, Method::Get);
    assert_eq!(request.url, "https://glz-latam-1.na.a.pvp.net/x");
    assert_eq!(
        request.headers,
        vec![
            header("Authorization", &format!("Bearer {TOKEN}")),
            header("X-Riot-Entitlements-JWT", "ent"),
            header("X-Riot-ClientPlatform", CLIENT_PLATFORM),
            header("X-Riot-ClientVersion", "v1"),
            header("User-Agent", USER_AGENT),
        ]
    );
    assert!(request.body.is_none());
    let request = session.send(Method::Post, Api::Pd, "/y", Some(Json::object()));
    assert_eq!(request.url, "https://pd.latam.a.pvp.net/y");
    assert_eq!(request.body.as_deref(), Some("{}"));
    assert_eq!(request.headers.len(), 6);
    assert_eq!(request.headers[5], header("Content-Type", "application/json"));
    assert_eq!(
        session.send(Method::Get, Api::Shared, "", None).url,
        "https://shared.latam.a.pvp.net"
    );
}

#[test]
fn local_requests_are_authenticated() {
    let request = authenticated().send(Method::Get, Api::Local, "/entitlements/v1/token", None);
    assert_eq!(request.url, "https://127.0.0.1:5000/entitlements/v1/token");
    assert_eq!(request.headers, vec![header("Authorization", "Basic cmlvdDpwdw==")]);
}

#[test]
fn cooldown_runs_out() {
    let mut session = session();
    assert_eq!(session.wait_for_cooldown(5), None);
    session.set_cooldown(5);
    assert_eq!(RATELIMIT_COOLDOWN_NANOS, 65_000_000_000);
    assert_eq!(session.wait_for_cooldown(5), Some(RATELIMIT_COOLDOWN_NANOS));
    assert_eq!(session.wait_for_cooldown(6), Some(RATELIMIT_COOLDOWN_NANOS - 1));
    assert_eq!(session.wait_for_cooldown(5 + RATELIMIT_COOLDOWN_NANOS), None);
    assert_eq!(session.wait_for_cooldown(u128::MAX), None);
}

fn refusal(session: &mut Session, data: EntitlementsResponse) -> String {
    match session.try_refresh_entitlements(data, None) {
        Err(Error::Auth(text)) => text,
        _ => panic!("expected a refusal"),
    }
}

#[test]
fn entitlements_are_renewed() {
    let mut session = authenticated();
    assert_eq!(
        refusal(&mut session, answer(Some("a"), Some("b"), Some("no"))),
        "entitlements refresh rejected: no"
    );
    assert_eq!(
        refusal(&mut session, answer(None, Some("b"), None)),
        "refresh missing accessToken"
    );
    assert_eq!(refusal(&mut session, answer(Some("a"), None, None)), "refresh missing token");
    assert_eq!(session.state.access_token, TOKEN);
    assert!(session.try_refresh_entitlements(answer(Some("a"), Some("b"), None), None).is_ok());
    assert_eq!(session.state.access_token, "a");
    assert_eq!(session.state.entitlements_token, "b");
    assert_eq!(session.puuid(), "me");
    assert!(matches!(session.state.expires_at, Some(Expiry::HourAfter(None))));
    let mut data = answer(Some(TOKEN), Some("b"), None);
    data.subject = some("you");
    assert!(session.try_refresh_entitlements(data, None).is_ok());
    assert_eq!(session.puuid(), "you");
    assert!(matches!(session.state.expires_at, Some(Expiry::Claimed(_))));
}

#[test]
fn entitlements_status_must_be_ok() {
    assert!(check_entitlements_status(200, "200 OK").is_ok());
    match check_entitlements_status(201, "201 Created") {
        Err(Error::Auth(text)) => {
            assert_eq!(text, "entitlements endpoint returned 201 Created")
        }
        _ => panic!("expected an error"),
    }
}

#[test]
fn renewal_is_tried_ten_times() {
    let mut attempts = Attempts::new();
    let mut waited = 0;
    for attempt in 1..=9u64 {
        match attempts.refresh_entitlements(false) {
            AttemptOutcome::Again { wait_secs } => {
                assert_eq!(wait_secs, 2 * attempt);
                waited += wait_secs;
            }
            _ => panic!("expected another try"),
        }
    }
    assert_eq!(waited, 90);
    assert!(matches!(attempts.refresh_entitlements(true), AttemptOutcome::Done));
    match attempts.refresh_entitlements(false) {
        AttemptOutcome::Exhausted(Error::Auth(text)) => {
            assert_eq!(text, "entitlements refresh exhausted all retries")
        }
        _ => panic!("expected the end"),
    }
}

#[test]
fn refresh_is_needed_for_refused_claims() {
    let rejected = r#"{"errorCode":"BAD_CLAIMS"}"#;
    assert!(is_claims_rejected(&json::parse(rejected).unwrap()));
    assert!(!is_claims_rejected(&json::parse("{}").unwrap()));
    assert!(needs_refresh(true, 401, ""));
    assert!(needs_refresh(true, 400, rejected));
    assert!(!needs_refresh(true, 400, r#"{"errorCode":"OTHER"}"#));
    assert!(!needs_refresh(true, 400, "BAD_CLAIMS"));
    assert!(!needs_refresh(true, 403, rejected));
    assert!(!needs_refresh(false, 401, rejected));
}

#[test]
fn request_is_delivered() {
    let (mut flow, action) = FetchFlow::start(Api::Pd);
    assert!(matches!(action, FetchAction::Send { wait: true }));
    assert!(matches!(
        flow.fetch(FetchEvent::Responded { status: 404 }),
        FetchAction::Read
    ));
    match flow.fetch(FetchEvent::Read { status: 404, text: "gone".to_string() }) {
        FetchAction::Deliver(response) => {
            assert_eq!(response.status, 404);
            assert_eq!(response.body, "gone");
        }
        _ => panic!("expected the response"),
    }
}

#[test]
fn request_is_sent_again_after_a_cooldown_and_a_refresh() {
    let (mut flow, _) = FetchFlow::start(Api::Shared);
    assert!(matches!(
        flow.fetch(FetchEvent::Responded { status: 429 }),
        FetchAction::CoolDown
    ));
    assert!(matches!(
        flow.fetch(FetchEvent::Responded { status: 429 }),
        FetchAction::Read
    ));
    assert!(matches!(
        flow.fetch(FetchEvent::Read { status: 401, text: String::new() }),
        FetchAction::Refresh
    ));
    assert!(matches!(
        flow.fetch(FetchEvent::Refreshed { succeeded: true }),
        FetchAction::Send { wait: false }
    ));
    assert!(matches!(
        flow.fetch(FetchEvent::Responded { status: 429 }),
        FetchAction::Read
    ));
    assert!(matches!(
        flow.fetch(FetchEvent::Read { status: 401, text: String::new() }),
        FetchAction::Deliver(_)
    ));
    assert!(matches!(
        flow.fetch(FetchEvent::Refreshed { succeeded: false }),
        FetchAction::Fail
    ));
}

#[test]
fn local_request_is_sent_once() {
    let (mut flow, action) = FetchFlow::start(Api::Local);
    assert!(!Api::Local.is_riot());
    assert!(matches!(action, FetchAction::Send { wait: false }));
    assert!(matches!(
        flow.fetch(FetchEvent::Responded { status: 429 }),
        FetchAction::Read
    ));
    assert!(matches!(
        flow.fetch(FetchEvent::Read { status: 401, text: String::new() }),
        FetchAction::Deliver(_)
    ));
}

#[test]
fn regions_are_plain_data() {
    let mut session = session();
    session.authenticate(AuthEvent::Located(Region {
        pd_shard: "eu".to_string(),
        glz_shard: "eu-1".to_string(),
        glz_region: "eu".to_string(),
    }));
    assert_eq!(session.base_urls.glz, "https://glz-eu-1.eu.a.pvp.net");
}

#[test]
fn growing_log_keeps_what_was_found() {
    for more in ["", "https://pd.eu.a.pvp.net/account-xp/v1/", LOG, "CI server version: other-1\n"] {
        for log in [LOG, LOG.trim_end()] {
            let region = parse_region(&format!("{log}\n{more}")).unwrap();
            assert_eq!(region.pd_shard, "latam");
            assert_eq!(region.glz_shard, "latam-1");
            assert_eq!(region.glz_region, "na");
            assert_eq!(
                parse_version(&format!("{log}\n{more}")),
                some("release-10.05-shipping-5-3376352")
            );
        }
    }
}
