use valorant_watcher::events::Event;
use valorant_watcher::fetch::ApiResponse;
use valorant_watcher::http::Method;
use valorant_watcher::json;
use valorant_watcher::lockfile::Lockfile;
use valorant_watcher::orchestrator::collection_targets;
use valorant_watcher::orchestrator::forwarded_body;
use valorant_watcher::orchestrator::Heard;
use valorant_watcher::orchestrator::Next;
use valorant_watcher::orchestrator::Orchestrator;
use valorant_watcher::session::Api;
use valorant_watcher::ws::decode_private;
use valorant_watcher::ws::ended;
use valorant_watcher::ws::extract_state;
use valorant_watcher::ws::fetch_match_id;
use valorant_watcher::ws::ingame_player_path;
use valorant_watcher::ws::loop_state_of;
use valorant_watcher::ws::match_id_of;
use valorant_watcher::ws::pregame_match_path;
use valorant_watcher::ws::pregame_player_path;
use valorant_watcher::ws::private_of;
use valorant_watcher::ws::started;
use valorant_watcher::ws::Activity;
use valorant_watcher::ws::LoadoutAction;
use valorant_watcher::ws::LoadoutFlow;
use valorant_watcher::ws::PregamePoll;
use valorant_watcher::ws::PregameStep;
use valorant_watcher::ws::Tracker;
use valorant_watcher::ws::TrackerAction;
use valorant_watcher::ws::LOADOUT_RETRY_SECS;
use valorant_watcher::ws::PREGAME_SERVER_PATH;
use valorant_watcher::ws::PREGAME_VOLATILE;
use valorant_watcher::ws::RECONNECT_SECS;
use valorant_watcher::ws::SUBSCRIBE_PRESENCE;

const INGAME: &str = "eyJtYXRjaFByZXNlbmNlRGF0YSI6IHsic2Vzc2lvbkxvb3BTdGF0ZSI6ICJJTkdBTUUifX0=";
const PREGAME: &str = "eyJtYXRjaFByZXNlbmNlRGF0YSI6IHsic2Vzc2lvbkxvb3BTdGF0ZSI6ICJQUkVHQU1FIn19";
const MENUS: &str = "eyJtYXRjaFByZXNlbmNlRGF0YSI6IHsic2Vzc2lvbkxvb3BTdGF0ZSI6ICJNRU5VUyJ9fQ==";

fn message(presences: &str) -> String {
    format!(r#"[8,"OnJsonApiEvent_chat_v4_presences",{{"data":{{"presences":[{presences}]}}}}]"#)
}

fn presence(puuid: &str, product: &str, private: &str) -> String {
    format!(r#"{{"puuid":"{puuid}","product":"{product}","private":"{private}"}}"#)
}

fn response(status: u16, body: &str) -> Option<ApiResponse> {
    Some(ApiResponse { status, body: body.to_string() })
}

#[test]
fn state_is_extracted_from_the_own_presence() {
    let text = message(&format!(
        "{},{},{},{}",
        presence("other", "valorant", PREGAME),
        presence("me", "league_of_legends", PREGAME),
        presence("me", "valorant", INGAME),
        presence("me", "valorant", MENUS),
    ));
    assert_eq!(extract_state(&text, "me").as_deref(), Some("INGAME"));
    assert_eq!(extract_state(&text, "other").as_deref(), Some("PREGAME"));
    assert_eq!(extract_state(&text, "nobody"), None);
}

#[test]
fn messages_without_a_state_are_passed_over() {
    for text in [
        "",
        "[]",
        "[8,\"x\",{}]",
        "[8,\"x\",{\"data\":{}}]",
        "[8,\"x\",{\"data\":{\"presences\":{}}}]",
    ] {
        assert_eq!(extract_state(text, "me"), None);
    }
    assert_eq!(extract_state(&message(r#"{"puuid":"me","product":"valorant"}"#), "me"), None);
    assert_eq!(extract_state(&message(&presence("me", "valorant", "!!")), "me"), None);
    let unreadable_first = message(&format!(
        "{},{}",
        presence("me", "valorant", "e30="),
        presence("me", "valorant", INGAME)
    ));
    assert_eq!(extract_state(&unreadable_first, "me"), None);
}

#[test]
fn private_part_is_padded_and_decoded() {
    let unpadded = INGAME.trim_end_matches('=');
    let value = decode_private(unpadded).unwrap();
    assert_eq!(loop_state_of(&value), Some("INGAME"));
    assert!(decode_private(INGAME).is_some());
    assert!(decode_private(PREGAME).is_some());
    assert_eq!(decode_private("e30").unwrap().into_text(), "{}");
    assert!(decode_private("e30==").is_none());
    assert!(decode_private("").is_none());
    assert!(decode_private("\u{e9}").is_none());
    assert_eq!(loop_state_of(&json::parse("{}").unwrap()), None);
}

#[test]
fn private_part_is_found() {
    let value = json::parse(&message(&presence("me", "valorant", "abc"))).unwrap();
    assert_eq!(private_of(&value, "me"), Some("abc"));
    assert_eq!(private_of(&value, "you"), None);
}

#[test]
fn tracker_starts_and_stops_collection() {
    let mut tracker = Tracker::new();
    let me = |private: &str| message(&presence("me", "valorant", private));
    assert_eq!(tracker.on_message(&me(MENUS), "me"), vec![]);
    assert_eq!(
        tracker.on_message(&me(PREGAME), "me"),
        vec![
            TrackerAction::TellStarted(Activity::Pregame),
            TrackerAction::Start(Activity::Pregame),
        ]
    );
    assert_eq!(tracker.on_message(&me(PREGAME), "me"), vec![]);
    assert_eq!(tracker.on_message("garbage", "me"), vec![]);
    assert_eq!(
        tracker.on_message(&me(INGAME), "me"),
        vec![
            TrackerAction::Stop(Activity::Pregame),
            TrackerAction::TellEnded(Activity::Pregame),
            TrackerAction::TellStarted(Activity::Match),
            TrackerAction::Start(Activity::Match),
        ]
    );
    assert_eq!(tracker.on_state(None), vec![]);
    assert_eq!(
        tracker.on_state(Some("MENUS".to_string())),
        vec![TrackerAction::Stop(Activity::Match), TrackerAction::TellEnded(Activity::Match)]
    );
}

#[test]
fn activities_have_events() {
    assert!(matches!(started(Activity::Pregame), Event::PregameStarted));
    assert!(matches!(ended(Activity::Pregame), Event::PregameEnded));
    assert!(matches!(started(Activity::Match), Event::MatchStarted));
    assert!(matches!(ended(Activity::Match), Event::MatchEnded));
    assert_eq!(SUBSCRIBE_PRESENCE, r#"[5,"OnJsonApiEvent_chat_v4_presences"]"#);
    assert_eq!(RECONNECT_SECS, 3);
    assert_eq!(LOADOUT_RETRY_SECS, 10);
    assert_eq!(
        PREGAME_VOLATILE,
        ["Version", "PhaseTimeRemainingNS", "StepTimeRemainingNS", "LastUpdated"]
    );
}

#[test]
fn match_is_named_by_a_response() {
    assert_eq!(fetch_match_id(&response(200, r#"{"MatchID":"m"}"#)).as_deref(), Some("m"));
    assert_eq!(fetch_match_id(&response(404, r#"{"MatchID":"m"}"#)), None);
    assert_eq!(fetch_match_id(&response(200, r#"{"MatchID":1}"#)), None);
    assert_eq!(fetch_match_id(&response(200, "x")), None);
    assert_eq!(fetch_match_id(&None), None);
    assert_eq!(match_id_of(&json::parse("{}").unwrap()), None);
}

#[test]
fn pregame_is_forwarded_when_it_changes() {
    let mut poll = PregamePoll::new();
    let mut step = |status: u16, body: &str| poll.poll_pregame(&response(status, body));
    let quiet = PregameStep { submit: false, over: false };
    let news = PregameStep { submit: true, over: false };
    assert_eq!(step(200, r#"{"Version":1,"Phase":"a"}"#), news);
    assert_eq!(step(200, r#"{"Version":2,"Phase":"a"}"#), quiet);
    assert_eq!(step(500, "x"), quiet);
    assert_eq!(step(200, r#"{"Version":3,"Phase":"b"}"#), news);
    assert_eq!(step(200, r#"{"Version":3,"Phase":"a"}"#), news);
    assert_eq!(
        step(200, r#"{"PregameState":"character_select_finished"}"#),
        PregameStep { submit: true, over: true }
    );
    assert_eq!(step(404, ""), PregameStep { submit: false, over: true });
    assert_eq!(poll.poll_pregame(&None), quiet);
    assert!(poll.note("m".to_string()));
    assert!(!poll.note("m".to_string()));
}

#[test]
fn pregame_paths() {
    assert_eq!(pregame_player_path("p"), "/pregame/v1/players/p");
    assert_eq!(pregame_match_path("m"), "/pregame/v1/matches/m");
    assert_eq!(PREGAME_SERVER_PATH, "/v1/pregame");
    assert_eq!(ingame_player_path("p"), "/core-game/v1/players/p");
}

#[test]
fn loadouts_are_fetched_and_forwarded() {
    let mut flow = LoadoutFlow::new();
    assert!(matches!(flow.fetch_ingame_loadouts(None), LoadoutAction::Pause));
    let found = r#"{"MatchID":"m"}"#;
    match flow.fetch_ingame_loadouts(response(200, found)) {
        LoadoutAction::Fetch { path } => assert_eq!(path, "/core-game/v1/matches/m/loadouts"),
        _ => panic!("expected a request"),
    }
    assert!(matches!(flow.fetch_ingame_loadouts(response(500, "")), LoadoutAction::Pause));
    assert!(matches!(
        flow.fetch_ingame_loadouts(response(200, found)),
        LoadoutAction::Fetch { .. }
    ));
    match flow.fetch_ingame_loadouts(response(200, "[]")) {
        LoadoutAction::Submit { path, body } => {
            assert_eq!(path, "/v1/account/match-loadouts?match_id=m");
            assert_eq!(body, "[]");
        }
        _ => panic!("expected a submission"),
    }
    assert!(matches!(flow.on_match(None), LoadoutAction::Pause));
}

fn login() -> Heard {
    Heard::Event(Event::RsoLogin(Lockfile::parse("c:1:5000:pw:https").unwrap()))
}

#[test]
fn one_session_runs_at_a_time() {
    let mut orchestrator = Orchestrator::new();
    let step = orchestrator.on_heard(Heard::Event(Event::RsoLogout));
    assert!(!step.stop && matches!(step.next, Next::ClearGameToken));
    let step = orchestrator.on_heard(login());
    match step.next {
        Next::Start(lockfile) => assert_eq!(lockfile.port, 5000),
        _ => panic!("expected a session"),
    }
    assert!(!step.stop);
    let step = orchestrator.on_heard(login());
    assert!(step.stop && matches!(step.next, Next::Start(_)));
    let step = orchestrator.on_heard(Heard::Lagged);
    assert!(!step.stop && matches!(step.next, Next::Wait));
    let step = orchestrator.on_heard(Heard::Event(Event::MatchStarted));
    assert!(!step.stop && matches!(step.next, Next::Wait));
    let step = orchestrator.on_heard(Heard::Event(Event::RsoLogout));
    assert!(step.stop && matches!(step.next, Next::ClearGameToken));
    orchestrator.on_heard(login());
    let step = orchestrator.on_heard(Heard::Event(Event::Shutdown));
    assert!(step.stop && matches!(step.next, Next::Finish));
    orchestrator.on_heard(login());
    let step = orchestrator.on_heard(Heard::Closed);
    assert!(!step.stop && matches!(step.next, Next::Finish));
}

#[test]
fn account_data_is_collected() {
    let targets = collection_targets("me");
    let shown: Vec<(Method, &str, &str)> = targets
        .iter()
        .map(|target| (target.method, target.path.as_str(), target.server_path))
        .collect();
    assert_eq!(
        shown,
        vec![
            (Method::Get, "/account-xp/v1/players/me", "/v1/account/xp"),
            (Method::Get, "/restrictions/v3/penalties", "/v1/account/penalties"),
            (Method::Get, "/store/v1/wallet/me", "/v1/account/balances"),
            (Method::Get, "/store/v1/entitlements/me", "/v1/account/owned-items"),
            (Method::Post, "/store/v3/storefront/me", "/v1/account/storefront"),
        ]
    );
    assert!(targets.iter().all(|target| target.api == Api::Pd));
    let bodies: Vec<Option<String>> =
        targets.into_iter().map(|target| target.body.map(|body| body.into_text())).collect();
    assert_eq!(bodies, vec![None, None, None, None, Some("{}".to_string())]);
}

#[test]
fn only_successes_are_forwarded() {
    assert_eq!(forwarded_body(response(200, "x")).as_deref(), Some("x"));
    assert_eq!(forwarded_body(response(403, "x")), None);
    assert_eq!(forwarded_body(None), None);
}
