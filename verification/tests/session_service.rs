use valorant_watcher::backend::Backend;
use valorant_watcher::events::Event;
use valorant_watcher::http::Method;
use valorant_watcher::json;
use valorant_watcher::lockfile::Lockfile;
use valorant_watcher::session_service::extract_session_id;
use valorant_watcher::session_service::is_session_lost;
use valorant_watcher::session_service::map_state;
use valorant_watcher::session_service::open_session;
use valorant_watcher::session_service::post_event;
use valorant_watcher::session_service::service_event;
use valorant_watcher::session_service::session_id_of;
use valorant_watcher::session_service::EventResult;
use valorant_watcher::session_service::ServiceAction;
use valorant_watcher::session_service::ServiceEvent;
use valorant_watcher::session_service::SessionService;
use valorant_watcher::session_service::PING_INTERVAL_SECS;
use valorant_watcher::session_service::STARTUP_STATE;

fn lockfile() -> Lockfile {
    Lockfile::parse("c:1:2:p:https").unwrap()
}

fn report(state: &str) -> ServiceEvent {
    ServiceEvent::Report(state.to_string())
}

fn opened(id: &str) -> ServiceEvent {
    ServiceEvent::Opened(Some(id.to_string()))
}

fn shown(action: ServiceAction) -> String {
    match action {
        ServiceAction::Wait => "wait".to_string(),
        ServiceAction::Open => "open".to_string(),
        ServiceAction::Post { session_id, state } => format!("post {session_id} {state}"),
        ServiceAction::Ping { session_id } => format!("ping {session_id}"),
        ServiceAction::End { session_id } => format!("end {session_id}"),
    }
}

fn step(service: &mut SessionService, event: ServiceEvent) -> String {
    shown(service.on_event(event))
}

fn running() -> SessionService {
    let mut service = SessionService::new();
    assert_eq!(step(&mut service, report("A")), "open");
    assert_eq!(step(&mut service, opened("s1")), "post s1 A");
    assert_eq!(step(&mut service, ServiceEvent::Posted(EventResult::Sent)), "wait");
    service
}

#[test]
fn events_have_states() {
    assert_eq!(map_state(&Event::RsoLogin(lockfile())), Some("RSO_LOGIN"));
    assert_eq!(map_state(&Event::RsoLogout), Some("RSO_LOGOUT"));
    assert_eq!(map_state(&Event::ValorantOpened(lockfile())), Some("VALORANT_OPENED"));
    assert_eq!(map_state(&Event::ValorantClosed), Some("VALORANT_CLOSED"));
    assert_eq!(map_state(&Event::PregameStarted), Some("PREGAME_STARTED"));
    assert_eq!(map_state(&Event::PregameEnded), Some("PREGAME_ENDED"));
    assert_eq!(map_state(&Event::MatchStarted), Some("MATCH_STARTED"));
    assert_eq!(map_state(&Event::MatchEnded), Some("MATCH_ENDED"));
    assert_eq!(map_state(&Event::Startup), None);
    assert_eq!(map_state(&Event::Shutdown), None);
    assert_eq!(STARTUP_STATE, "STARTUP");
    assert_eq!(PING_INTERVAL_SECS, 30);
}

#[test]
fn events_mean_something_to_the_service() {
    assert!(matches!(service_event(&Event::Shutdown), Some(ServiceEvent::Shutdown)));
    assert!(service_event(&Event::Startup).is_none());
    match service_event(&Event::MatchEnded) {
        Some(ServiceEvent::Report(state)) => assert_eq!(state, "MATCH_ENDED"),
        _ => panic!("expected a report"),
    }
}

#[test]
fn replies_are_judged_by_their_status() {
    assert!(is_session_lost(404));
    assert!(is_session_lost(410));
    assert!(!is_session_lost(400));
    assert_eq!(post_event(Some(204)), EventResult::Sent);
    assert_eq!(post_event(Some(410)), EventResult::Lost);
    assert_eq!(post_event(Some(200)), EventResult::Failed);
    assert_eq!(post_event(None), EventResult::Failed);
}

#[test]
fn session_identifiers_are_read() {
    assert_eq!(extract_session_id(r#"{"session_id":"abc"}"#).as_deref(), Some("abc"));
    assert_eq!(extract_session_id(r#"{"session_id":7}"#).as_deref(), Some("7"));
    assert_eq!(extract_session_id(r#"{"session_id":null}"#).as_deref(), Some("null"));
    assert_eq!(extract_session_id("{}"), None);
    assert_eq!(extract_session_id("x"), None);
    assert_eq!(
        session_id_of(json::parse(r#"{"session_id":{"b":1, "a":2}}"#).unwrap()).as_deref(),
        Some(r#"{"a":2,"b":1}"#)
    );
    assert_eq!(open_session(201, r#"{"session_id":"abc"}"#).as_deref(), Some("abc"));
    assert_eq!(open_session(200, r#"{"session_id":"abc"}"#), None);
    assert_eq!(open_session(201, "{}"), None);
}

#[test]
fn service_requests_are_made() {
    let backend = Backend::new("https://s");
    let auth = vec![("Authorization".to_string(), "Bearer t".to_string())];
    for (request, url) in [
        (backend.open_request("t"), "https://s/v1/sessions"),
        (backend.ping_request("t", "id"), "https://s/v1/sessions/id/ping"),
        (backend.end_request("t", "id"), "https://s/v1/sessions/id/end"),
    ] {
        assert_eq!(request.method, Method::Post);
        assert_eq!(request.url, url);
        assert_eq!(request.headers, auth);
        assert!(request.body.is_none());
    }
    let request = backend.event_request_with_id("t", "id", "STARTUP", 1_700_000_000_123, "e");
    assert_eq!(request.url, "https://s/v1/sessions/id/event");
    assert_eq!(
        request.body.as_deref(),
        Some(r#"{"event_id":"e","state":"STARTUP","timestamp_unix_ms":1700000000123}"#)
    );
    assert_eq!(request.headers.len(), 2);
}

fn event_id(backend: &Backend) -> String {
    let request = backend.event_request("t", "id", "S", 5);
    let body = json::parse(&request.body.unwrap()).unwrap();
    assert_eq!(body.member_text("state"), Some("S"));
    body.member_text("event_id").unwrap().to_string()
}

#[test]
fn event_identifiers_are_random() {
    let backend = Backend::new("https://s");
    let first = event_id(&backend);
    let second = event_id(&backend);
    assert_ne!(first, second);
    for id in [first, second] {
        assert_eq!(id.len(), 36);
        for (i, c) in id.chars().enumerate() {
            match i {
                8 | 13 | 18 | 23 => assert_eq!(c, '-'),
                14 => assert_eq!(c, '4'),
                19 => assert!("89ab".contains(c)),
                _ => assert!(c.is_ascii_digit() || ('a'..='f').contains(&c)),
            }
        }
    }
}

#[test]
fn states_are_kept_until_a_session_opens() {
    let mut service = SessionService::new();
    for state in ["A", "B"] {
        assert_eq!(step(&mut service, report(state)), "open");
        assert_eq!(step(&mut service, ServiceEvent::Opened(None)), "wait");
    }
    assert_eq!(step(&mut service, report("C")), "open");
    assert_eq!(step(&mut service, opened("s")), "post s A");
    assert_eq!(step(&mut service, ServiceEvent::Posted(EventResult::Sent)), "post s B");
    assert_eq!(step(&mut service, ServiceEvent::Posted(EventResult::Failed)), "post s C");
    assert_eq!(step(&mut service, ServiceEvent::Posted(EventResult::Sent)), "wait");
    assert_eq!(step(&mut service, report("D")), "post s D");
}

#[test]
fn lost_session_is_reopened_for_a_report() {
    let mut service = running();
    assert_eq!(step(&mut service, report("B")), "post s1 B");
    assert_eq!(step(&mut service, ServiceEvent::Posted(EventResult::Lost)), "open");
    assert_eq!(step(&mut service, opened("s2")), "post s2 B");
    assert_eq!(step(&mut service, ServiceEvent::Posted(EventResult::Lost)), "wait");
    assert_eq!(step(&mut service, report("C")), "post s2 C");
}

#[test]
fn report_is_dropped_where_no_session_can_be_reopened() {
    let mut service = running();
    assert_eq!(step(&mut service, report("B")), "post s1 B");
    assert_eq!(step(&mut service, ServiceEvent::Posted(EventResult::Lost)), "open");
    assert_eq!(step(&mut service, ServiceEvent::Opened(None)), "wait");
    assert_eq!(step(&mut service, report("C")), "open");
    assert_eq!(step(&mut service, opened("s2")), "post s2 C");
}

#[test]
fn kept_states_are_dropped_with_a_session_that_is_lost_for_good() {
    let mut service = SessionService::new();
    step(&mut service, report("A"));
    step(&mut service, ServiceEvent::Opened(None));
    step(&mut service, report("B"));
    assert_eq!(step(&mut service, opened("s")), "post s A");
    assert_eq!(step(&mut service, ServiceEvent::Posted(EventResult::Lost)), "open");
    assert_eq!(step(&mut service, ServiceEvent::Opened(None)), "wait");
    assert_eq!(step(&mut service, report("C")), "open");
    assert_eq!(step(&mut service, opened("s2")), "post s2 C");
}

#[test]
fn ping_restores_the_state() {
    let mut service = running();
    assert_eq!(step(&mut service, ServiceEvent::Tick), "ping s1");
    assert_eq!(step(&mut service, ServiceEvent::Pinged { lost: false }), "wait");
    assert_eq!(step(&mut service, ServiceEvent::Tick), "ping s1");
    assert_eq!(step(&mut service, ServiceEvent::Pinged { lost: true }), "open");
    assert_eq!(step(&mut service, opened("s2")), "post s2 A");
    assert_eq!(step(&mut service, ServiceEvent::Posted(EventResult::Sent)), "wait");
    assert_eq!(step(&mut service, ServiceEvent::Tick), "ping s2");
    assert_eq!(step(&mut service, ServiceEvent::Pinged { lost: true }), "open");
    assert_eq!(step(&mut service, ServiceEvent::Opened(None)), "wait");
    assert_eq!(step(&mut service, ServiceEvent::Tick), "wait");
}

#[test]
fn session_is_ended() {
    let mut service = running();
    assert_eq!(step(&mut service, ServiceEvent::Shutdown), "end s1");
    assert_eq!(step(&mut service, ServiceEvent::Shutdown), "wait");
    assert_eq!(step(&mut service, ServiceEvent::Tick), "wait");
}

#[test]
fn stray_events_change_nothing() {
    let mut service = running();
    assert_eq!(step(&mut service, ServiceEvent::Posted(EventResult::Lost)), "wait");
    assert_eq!(step(&mut service, ServiceEvent::Pinged { lost: true }), "wait");
    assert_eq!(step(&mut service, opened("s9")), "wait");
    assert_eq!(step(&mut service, report("B")), "post s1 B");
    assert_eq!(step(&mut service, report("C")), "wait");
    assert_eq!(step(&mut service, ServiceEvent::Posted(EventResult::Sent)), "wait");
}
