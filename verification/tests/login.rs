use valorant_watcher::backend::Backend;
use valorant_watcher::backend::LoginProof;
use valorant_watcher::error::Error;
use valorant_watcher::http::Method;
use valorant_watcher::login::accept_callback;
use valorant_watcher::login::auth_url;
use valorant_watcher::login::discord_login;
use valorant_watcher::login::is_aligned;
use valorant_watcher::login::is_request_aligned;
use valorant_watcher::login::loopback_url;
use valorant_watcher::login::parse_callback;
use valorant_watcher::login::percent_decode;
use valorant_watcher::login::percent_decode_bytes;
use valorant_watcher::login::read_callback;
use valorant_watcher::login::write_response;
use valorant_watcher::login::CallbackOutcome;
use valorant_watcher::login::LOGIN_SUCCESS_HTML;
use valorant_watcher::login::LOGIN_TIMEOUT_SECS;

fn sample_login() -> LoginProof {
    LoginProof {
        provider: "discord".to_string(),
        provider_id: "42".to_string(),
        access_token: "t".to_string(),
    }
}

#[test]
fn login_is_asked_for_with_a_loopback_address() {
    let loopback = loopback_url(54321);
    assert_eq!(loopback, "http://127.0.0.1:54321/callback");
    let request = Backend::new("https://server.example/").discord_request(&loopback);
    assert_eq!(request.method, Method::Get);
    assert_eq!(request.url, "https://server.example/v1/auth/discord");
    assert_eq!(
        request.query,
        vec![
            ("redirect".to_string(), "false".to_string()),
            ("loopback_redirect".to_string(), loopback),
        ]
    );
    assert!(request.headers.is_empty());
    assert!(request.body.is_none());
    assert_eq!(LOGIN_TIMEOUT_SECS, 300);
}

#[test]
fn login_address_is_unquoted() {
    assert_eq!(auth_url(" \"https://discord.example/o?x=1\"\n"), "https://discord.example/o?x=1");
    assert_eq!(auth_url("https://discord.example"), "https://discord.example");
}

#[test]
fn login_outcomes() {
    let login = discord_login(CallbackOutcome::Received(sample_login())).ok().unwrap();
    assert_eq!(login.provider_id, "42");
    match discord_login(CallbackOutcome::Closed) {
        Err(Error::Auth(text)) => assert_eq!(text, "oauth callback closed without credentials"),
        _ => panic!("expected an error"),
    }
    match discord_login(CallbackOutcome::TimedOut) {
        Err(Error::Auth(text)) => assert_eq!(text, "oauth loopback timed out"),
        _ => panic!("expected an error"),
    }
}

#[test]
fn escapes_are_decoded() {
    assert_eq!(percent_decode("plain"), "plain");
    assert_eq!(percent_decode("a+b%20c%2Bd"), "a b c+d");
    assert_eq!(percent_decode("%C3%A9%c3%a9"), "\u{e9}\u{e9}");
    assert_eq!(percent_decode("%zz%4"), "%zz%4");
    assert_eq!(percent_decode("%+5"), "\u{5}");
    assert_eq!(percent_decode("%4%41"), "%4A");
    assert_eq!(percent_decode("%ff"), "\u{fffd}");
    assert_eq!(percent_decode("\u{1f600}+%\u{e9}"), "\u{1f600} %\u{e9}");
    assert_eq!(percent_decode(""), "");
    assert_eq!(percent_decode_bytes("%00+\u{e9}"), vec![0, 0x20, 0xc3, 0xa9]);
}

#[test]
fn escapes_that_cut_a_character_are_told() {
    assert!(is_aligned("%41%\u{e9}x\u{20ac}"));
    assert!(is_aligned("%\u{e9}"));
    assert!(!is_aligned("%\u{20ac}"));
    assert!(!is_aligned("x%4\u{e9}"));
    assert!(is_aligned("%4"));
    assert!(is_aligned("\u{20ac}%"));
}

#[test]
fn callback_carries_the_login() {
    let request = "GET /callback?provider=discord&x&provider_id=1%2B2&access_token=a&access_token=b+c HTTP/1.1\r\nHost: h\r\n\r\n";
    assert!(is_request_aligned(request));
    let login = parse_callback(request).unwrap();
    assert_eq!(login.provider, "discord");
    assert_eq!(login.provider_id, "1+2");
    assert_eq!(login.access_token, "b c");
    let read = read_callback(request.as_bytes()).unwrap().unwrap();
    assert_eq!(read.access_token, "b c");
}

#[test]
fn other_requests_carry_no_login() {
    for request in [
        "",
        "GET",
        "GET /callback HTTP/1.1",
        "GET /other?provider=a&provider_id=b&access_token=c HTTP/1.1",
        "GET /callback?provider=a&provider_id=b HTTP/1.1",
        "\nGET /callback?provider=a&provider_id=b&access_token=c HTTP/1.1",
    ] {
        assert!(parse_callback(request).is_none(), "{request:?}");
        assert!(read_callback(request.as_bytes()).unwrap().is_none());
    }
}

#[test]
fn callback_with_a_cut_character_is_told() {
    let request = "GET /callback?provider=%\u{20ac} HTTP/1.1";
    assert!(!is_request_aligned(request));
    assert!(read_callback(request.as_bytes()).is_none());
    assert!(is_request_aligned("GET /other?provider=%\u{20ac} HTTP/1.1"));
}

#[test]
fn response_head_counts_bytes() {
    assert_eq!(
        write_response("200 OK", "text/plain", "\u{e9}"),
        "HTTP/1.1 200 OK\r\nContent-Type: text/plain\r\nContent-Length: 2\r\nCache-Control: no-store\r\nConnection: close\r\n\r\n"
    );
}

#[test]
fn connection_is_answered() {
    let reply = accept_callback(&Some(sample_login()));
    assert!(!reply.again);
    assert_eq!(reply.body, LOGIN_SUCCESS_HTML);
    assert!(reply.head.starts_with("HTTP/1.1 200 OK\r\nContent-Type: text/html; charset=utf-8\r\n"));
    assert!(reply.head.contains(&format!("Content-Length: {}\r\n", LOGIN_SUCCESS_HTML.len())));
    let reply = accept_callback(&None);
    assert!(reply.again);
    assert_eq!(reply.body, "bad request");
    assert!(reply.head.starts_with("HTTP/1.1 400 Bad Request\r\n"));
    assert!(reply.head.contains("Content-Length: 11\r\n"));
}

#[test]
fn any_byte_can_be_escaped() {
    let bytes: Vec<u8> = (0..=255).collect();
    let escaped: String = bytes.iter().map(|byte| format!("%{byte:02x}")).collect();
    assert_eq!(percent_decode_bytes(&escaped), bytes);
    let escaped: String = bytes.iter().map(|byte| format!("%{byte:02X}")).collect();
    assert_eq!(percent_decode_bytes(&escaped), bytes);
}

#[test]
fn callback_in_another_alphabet_is_decoded() {
    let request = "GET /callback?provider=%C3%A9&provider_id=%E2%82%AC+1&access_token=\u{e9} HTTP/1.1";
    let login = read_callback(request.as_bytes()).unwrap().unwrap();
    assert_eq!(login.provider, "\u{e9}");
    assert_eq!(login.provider_id, "\u{20ac} 1");
    assert_eq!(login.access_token, "\u{e9}");
}
