use valorant_watcher::error::Error;
use valorant_watcher::lockfile::Lockfile;

fn sample() -> Lockfile {
    Lockfile::parse(" Riot Client:1234:50321:pass-word_1:https\n").unwrap()
}

#[test]
fn lockfile_fields_are_read() {
    let lockfile = sample();
    assert_eq!(lockfile.name, "Riot Client");
    assert_eq!(lockfile.pid, 1234);
    assert_eq!(lockfile.port, 50321);
    assert_eq!(lockfile.password, "pass-word_1");
    assert_eq!(lockfile.protocol, "https");
    assert_eq!(lockfile.clone(), lockfile);
}

#[test]
fn lockfile_addresses_and_credentials() {
    let lockfile = sample();
    assert_eq!(lockfile.base_url(), "https://127.0.0.1:50321");
    assert_eq!(lockfile.wss_url(), "wss://127.0.0.1:50321");
    assert_eq!(lockfile.auth_header(), "Basic cmlvdDpwYXNzLXdvcmRfMQ==");
}

fn fault(content: &str) -> String {
    match Lockfile::parse(content) {
        Err(Error::Lockfile(text)) => text,
        other => panic!("unexpected outcome: {other:?}"),
    }
}

#[test]
fn lockfile_faults_are_named() {
    assert_eq!(fault(""), "expected 5 fields, got 1");
    assert_eq!(fault("a:b"), "expected 5 fields, got 2");
    assert_eq!(fault("a:1:2:b:c:d"), "expected 5 fields, got 6");
    assert_eq!(fault("a:x:2:b:c"), "invalid pid: x");
    assert_eq!(fault("a:4294967296:2:b:c"), "invalid pid: 4294967296");
    assert_eq!(fault("a:1:65536:b:c"), "invalid port: 65536");
    assert_eq!(fault("a:-1:x:b:c"), "invalid pid: -1");
    assert_eq!(fault("a:1: 2:b:c"), "invalid port:  2");
}

#[test]
fn lockfile_limits_are_accepted() {
    let lockfile = Lockfile::parse(":+4294967295:65535::").unwrap();
    assert_eq!(lockfile.pid, u32::MAX);
    assert_eq!(lockfile.port, u16::MAX);
    assert_eq!(lockfile.name, "");
    assert_eq!(lockfile.password, "");
    assert_eq!(lockfile.protocol, "");
}

#[test]
fn errors_are_shown() {
    assert_eq!(Error::Config("x".into()).message(), "config error: x");
    assert_eq!(Error::Path("x".into()).message(), "path resolution error: x");
    assert_eq!(Error::Lockfile("x".into()).message(), "malformed lockfile: x");
    assert_eq!(Error::Auth("x".into()).message(), "auth error: x");
}

#[test]
fn written_lockfile_is_read_back() {
    for (name, pid, port, password, protocol) in
        [("Riot Client", 0u32, 1u16, "a b", "https"), ("n", u32::MAX, u16::MAX, "", "wss")]
    {
        let lockfile = Lockfile::parse(&format!("{name}:{pid}:{port}:{password}:{protocol}")).unwrap();
        assert_eq!(
            lockfile,
            Lockfile {
                name: name.to_string(),
                pid,
                port,
                password: password.to_string(),
                protocol: protocol.to_string(),
            }
        );
    }
}
