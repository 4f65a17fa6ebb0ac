use valorant_watcher::events::Event;
use valorant_watcher::watchers::is_riot_client_running;
use valorant_watcher::watchers::is_running;
use valorant_watcher::watchers::LockfileReads;
use valorant_watcher::watchers::ProcessAction;
use valorant_watcher::watchers::ProcessWatcher;
use valorant_watcher::watchers::ReadAction;
use valorant_watcher::watchers::RiotClientWatcher;
use valorant_watcher::watchers::LOCKFILE_RETRIES;
use valorant_watcher::watchers::LOCKFILE_RETRY_SECS;
use valorant_watcher::watchers::VALORANT_PROCESS_NAMES;

const CONTENT: &str = "Riot Client:1:5000:pw:https";

fn names(all: &[&str]) -> Vec<String> {
    all.iter().map(|name| name.to_string()).collect()
}

#[test]
fn processes_are_found_by_their_whole_name() {
    assert!(is_running(&names(&["a", "VALORANT"]), &VALORANT_PROCESS_NAMES));
    assert!(is_running(&names(&["VALORANT-Win64-Shipping.exe"]), &VALORANT_PROCESS_NAMES));
    assert!(!is_running(&names(&["VALORANT.exe", "valorant"]), &VALORANT_PROCESS_NAMES));
    assert!(!is_running(&[], &VALORANT_PROCESS_NAMES));
    assert!(is_riot_client_running(&names(&["RiotClientServices"])));
    assert!(!is_riot_client_running(&names(&["VALORANT"])));
}

#[test]
fn login_and_logout_are_told() {
    let mut watcher = RiotClientWatcher::new();
    let poll = watcher.poll_once(None);
    assert!(poll.event.is_none() && poll.request.is_none());
    let poll = watcher.poll_once(Some(CONTENT));
    assert!(poll.event.is_none());
    let request = poll.request.unwrap();
    assert_eq!(request.url, "https://127.0.0.1:5000/rso-auth/v1/authorization");
    assert_eq!(
        request.headers,
        vec![("Authorization".to_string(), "Basic cmlvdDpwdw==".to_string())]
    );
    assert!(watcher.on_authorization(None).is_none());
    match watcher.on_authorization(Some(200)) {
        Some(Event::RsoLogin(lockfile)) => assert_eq!(lockfile.port, 5000),
        _ => panic!("expected a login"),
    }
    assert!(watcher.on_authorization(Some(200)).is_none());
    let poll = watcher.poll_once(Some("Riot Client:1:5000:pw:https\n"));
    assert!(poll.event.is_none() && poll.request.is_some());
    assert!(matches!(watcher.on_authorization(Some(404)), Some(Event::RsoLogout)));
    assert!(watcher.on_authorization(Some(404)).is_none());
}

#[test]
fn missing_lockfile_logs_out() {
    let mut watcher = RiotClientWatcher::new();
    watcher.poll_once(Some(CONTENT));
    watcher.on_authorization(Some(200));
    let poll = watcher.poll_once(None);
    assert!(matches!(poll.event, Some(Event::RsoLogout)));
    assert!(poll.request.is_none());
    assert!(watcher.poll_once(None).event.is_none());
    assert!(watcher.on_authorization(Some(200)).is_none());
}

#[test]
fn new_credentials_log_out() {
    let mut watcher = RiotClientWatcher::new();
    watcher.poll_once(Some(CONTENT));
    watcher.on_authorization(Some(200));
    let poll = watcher.poll_once(Some("Riot Client:2:6000:pw:https"));
    assert!(matches!(poll.event, Some(Event::RsoLogout)));
    assert_eq!(
        poll.request.unwrap().url,
        "https://127.0.0.1:6000/rso-auth/v1/authorization"
    );
    match watcher.on_authorization(Some(200)) {
        Some(Event::RsoLogin(lockfile)) => assert_eq!(lockfile.port, 6000),
        _ => panic!("expected a login"),
    }
}

#[test]
fn unreadable_lockfile_is_passed_over_once() {
    let mut watcher = RiotClientWatcher::new();
    watcher.poll_once(Some(CONTENT));
    watcher.on_authorization(Some(200));
    let poll = watcher.poll_once(Some("half"));
    assert!(poll.event.is_none() && poll.request.is_none());
    let poll = watcher.poll_once(Some("half"));
    assert!(poll.event.is_none());
    assert_eq!(
        poll.request.unwrap().url,
        "https://127.0.0.1:5000/rso-auth/v1/authorization"
    );
    let mut fresh = RiotClientWatcher::new();
    let poll = fresh.poll_once(Some(" \n"));
    assert!(poll.event.is_none() && poll.request.is_none());
}

#[test]
fn game_is_opened_and_closed() {
    let mut watcher = ProcessWatcher::new();
    let game = names(&["VALORANT-Win64-Shipping"]);
    assert_eq!(watcher.poll_once(&[]), ProcessAction::Wait);
    assert_eq!(watcher.poll_once(&game), ProcessAction::ReadLockfile);
    assert_eq!(watcher.poll_once(&game), ProcessAction::Wait);
    assert_eq!(watcher.poll_once(&[]), ProcessAction::TellClosed);
    assert_eq!(watcher.poll_once(&[]), ProcessAction::Wait);
    assert_eq!(watcher.poll_once(&game), ProcessAction::ReadLockfile);
}

#[test]
fn lockfile_is_read_until_it_can_be() {
    assert_eq!(LOCKFILE_RETRIES, 10);
    assert_eq!(LOCKFILE_RETRY_SECS, 1);
    let (mut reads, action) = LockfileReads::start(3);
    assert!(matches!(action, ReadAction::Read));
    assert!(matches!(reads.read_lockfile_with_retry(None), ReadAction::PauseAndRead));
    assert!(matches!(reads.read_lockfile_with_retry(Some("half")), ReadAction::PauseAndRead));
    match reads.read_lockfile_with_retry(Some(CONTENT)) {
        ReadAction::Found(lockfile) => assert_eq!(lockfile.password, "pw"),
        _ => panic!("expected a lockfile"),
    }
    assert!(matches!(reads.read_lockfile_with_retry(Some("")), ReadAction::GiveUp));
    assert!(matches!(LockfileReads::start(0).1, ReadAction::GiveUp));
}
