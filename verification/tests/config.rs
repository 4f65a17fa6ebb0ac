use valorant_watcher::clock::now_ms;
use valorant_watcher::clock::now_secs;
use valorant_watcher::clock::Elapsed;
use valorant_watcher::config::default_collect_interval;
use valorant_watcher::config::default_poll_interval;
use valorant_watcher::config::default_pregame_poll_interval_ms;
use valorant_watcher::config::default_ratelimit_offset;
use valorant_watcher::config::default_ratelimit_timeout;
use valorant_watcher::config::default_true;
use valorant_watcher::config::Config;
use valorant_watcher::config::CANONICAL_URL;
use valorant_watcher::config::LEGACY_HOST;
use valorant_watcher::paths;
use valorant_watcher::paths::Location;
use valorant_watcher::paths::Platform;
use valorant_watcher::paths::Root;
use valorant_watcher::updater::update_target;

fn config(url: &str) -> Config {
    Config {
        server_base_url: url.to_string(),
        poll_interval: default_poll_interval(),
        collect_interval: default_collect_interval(),
        enable_data_sending: default_true(),
        ratelimit_timeout: default_ratelimit_timeout(),
        ratelimit_offset: default_ratelimit_offset(),
        pregame_poll_interval_ms: default_pregame_poll_interval_ms(),
        auto_update: default_true(),
    }
}

#[test]
fn defaults_are_as_documented() {
    let config = config("http://localhost");
    assert_eq!(config.poll_interval, 3);
    assert_eq!(config.collect_interval, 60);
    assert!(config.enable_data_sending);
    assert_eq!(config.ratelimit_timeout, 60);
    assert_eq!(config.ratelimit_offset, 60);
    assert_eq!(config.pregame_poll_interval_ms, 250);
    assert!(config.auto_update);
}

#[test]
fn legacy_server_is_replaced_once() {
    let mut config = config(&format!("https://api.{LEGACY_HOST}/v1"));
    assert!(config.migrate());
    assert_eq!(config.server_base_url, "https://valstats.site");
    assert_eq!(config.server_base_url, CANONICAL_URL);
    assert_eq!(config.poll_interval, 3);
    assert!(!config.migrate());
    assert_eq!(config.server_base_url, CANONICAL_URL);
}

#[test]
fn other_servers_are_kept() {
    let mut config = config("https://valorant-streamsniper.co");
    assert!(!config.migrate());
    assert_eq!(config.clone().server_base_url, "https://valorant-streamsniper.co");
}

#[test]
fn clock_is_read_in_seconds_and_milliseconds() {
    let at = Some(Elapsed { secs: 1_700_000_000, nanos: 123_999_999 });
    assert_eq!(now_secs(at), 1_700_000_000);
    assert_eq!(now_ms(at), 1_700_000_000_123);
    assert_eq!(now_secs(None), 0);
    assert_eq!(now_ms(None), 0);
}

fn path(location: Location) -> (Root, String) {
    (location.root, location.names.join("/"))
}

#[test]
fn files_lie_where_they_should() {
    assert_eq!(path(paths::app_base_dir()), (Root::Executable, "".to_string()));
    assert_eq!(path(paths::config_path()), (Root::Executable, "config.json".to_string()));
    assert_eq!(path(paths::data_dir()), (Root::Executable, "data".to_string()));
    assert_eq!(path(paths::auth_tokens_path()), (Root::Executable, "data/auth.json".to_string()));
    assert_eq!(
        path(paths::instance_lock_path()),
        (Root::Executable, "data/instance.lock".to_string())
    );
    assert_eq!(
        path(paths::lockfile_path(Platform::Windows)),
        (Root::Home, "AppData/Local/Riot Games/Riot Client/Config/lockfile".to_string())
    );
    assert_eq!(
        path(paths::lockfile_path(Platform::MacOs)),
        (
            Root::Home,
            "Library/Application Support/Riot Games/Riot Client/Config/lockfile".to_string()
        )
    );
    assert_eq!(
        path(paths::riot_client_config_dir(Platform::Windows)),
        (Root::Home, "AppData/Local/Riot Games/Riot Client/Config".to_string())
    );
    assert_eq!(
        path(paths::riot_log_path(Platform::Windows)),
        (Root::Home, "AppData/Local/VALORANT/Saved/Logs/ShooterGame.log".to_string())
    );
    assert_eq!(
        path(paths::riot_log_path(Platform::MacOs)),
        (
            Root::Home,
            "Library/Application Support/VALORANT/Saved/Logs/ShooterGame.log".to_string()
        )
    );
}

#[test]
fn releases_are_named_after_the_system() {
    assert_eq!(update_target(Platform::Windows), "windows");
    assert_eq!(update_target(Platform::MacOs), "macos");
}
