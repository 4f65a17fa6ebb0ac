//! The login in the user's browser, which ends with a request to a port of
//! this machine.

use vstd::prelude::*;
use vstd::utf8::decode_utf8;
use vstd::utf8::encode_utf8;
use vstd::utf8::valid_utf8;

use crate::backend::Backend;
use crate::backend::LoginProof;
use crate::encoding::from_utf8_lossy;
use crate::encoding::hex_digit;
use crate::encoding::lossy_text;
use crate::error::Error;
use crate::http::HttpRequest;
use crate::http::Method;
use crate::text::append;
use crate::text::blank_parts_words;
use crate::text::chars;
use crate::text::concat;
use crate::text::decimal;
use crate::text::halves;
use crate::text::halves_are_parted_at_the_first;
use crate::text::is_white_space;
use crate::text::lines;
use crate::text::newline_ends_a_line;
use crate::text::pieces;
use crate::text::same;
use crate::text::split;
use crate::text::split_lines;
use crate::text::split_once;
use crate::text::split_whitespace;
use crate::text::strip_both;
use crate::text::texts;
use crate::text::to_decimal;
use crate::text::trim;
use crate::text::trim_matches;
use crate::text::trimmed;
use crate::text::without_return;
use crate::text::words;
use crate::text::CharClass;

verus! {

/// How long the user has for the login, in seconds.
pub const LOGIN_TIMEOUT_SECS: u64 = 300;

/// The page that the browser shows after the login.
pub const LOGIN_SUCCESS_HTML: &'static str =
    "<!doctype html><html lang=\"en\"><head><meta charset=\"utf-8\"><title>Signed in</title></head><body style=\"font-family:sans-serif;text-align:center;padding-top:4rem\"><h1>you're signed in</h1><p>you can close this tab and return to the app.</p></body></html>";

/// The address on this machine that the browser is sent to.
pub fn loopback_url(port: u16) -> (url: String)
    ensures
        url@ == "http://127.0.0.1:"@ + decimal(port as nat) + "/callback"@,
{
    let port = to_decimal(port as u64);
    concat(concat("http://127.0.0.1:", port.as_str()).as_str(), "/callback")
}

impl Backend {
    /// The request for the address at which the user logs in.
    pub fn discord_request(&self, loopback: &str) -> (r: HttpRequest)
        ensures
            r.method == Method::Get,
            r.url@ == self.base_url@ + "/v1/auth/discord"@,
            r.query_texts() =~= seq![
                ("redirect"@, "false"@),
                ("loopback_redirect"@, loopback@),
            ],
            r.header_texts() =~= Seq::<(Seq<char>, Seq<char>)>::empty(),
            r.body is None,
    {
        let url = concat(self.base_url.as_str(), "/v1/auth/discord");
        HttpRequest::new(Method::Get, url).parameter("redirect", "false").parameter(
            "loopback_redirect",
            loopback,
        )
    }
}

/// The address at which the user logs in, in the server's reply.
pub fn auth_url(reply: &str) -> (url: String)
    ensures
        url@ == strip_both(trimmed(reply@), CharClass::Only('"')),
{
    trim_matches(trim(reply), '"').to_owned()
}

/// How waiting for the browser ended.
pub enum CallbackOutcome {
    Received(LoginProof),
    Closed,
    TimedOut,
}

/// What a login comes to.
pub fn discord_login(outcome: CallbackOutcome) -> (r: Result<LoginProof, Error>)
    ensures
        match (outcome, r) {
            (CallbackOutcome::Received(login), Ok(given)) => given == login,
            (CallbackOutcome::Closed, Err(Error::Auth(text))) => text@
                == "oauth callback closed without credentials"@,
            (CallbackOutcome::TimedOut, Err(Error::Auth(text))) => text@
                == "oauth loopback timed out"@,
            _ => false,
        },
{
    match outcome {
        CallbackOutcome::Received(login) => Ok(login),
        CallbackOutcome::Closed => Err(
            Error::Auth("oauth callback closed without credentials".to_owned()),
        ),
        CallbackOutcome::TimedOut => Err(Error::Auth("oauth loopback timed out".to_owned())),
    }
}

/// The value of a hexadecimal digit.
pub open spec fn nibble(c: char) -> Option<u8> {
    if '0' <= c <= '9' {
        Some((c as u32 - 0x30) as u8)
    } else if 'a' <= c <= 'f' {
        Some((c as u32 - 0x57) as u8)
    } else if 'A' <= c <= 'F' {
        Some((c as u32 - 0x37) as u8)
    } else {
        None
    }
}

/// The byte that a text's first three characters stand for: a percent sign and
/// two hexadecimal digits, or a plus sign in place of the first of them.
pub open spec fn escaped_byte(s: Seq<char>) -> Option<u8> {
    if s.len() >= 3 && s[0] == '%' {
        match (nibble(s[1]), nibble(s[2])) {
            (Some(high), Some(low)) => Some((16 * high + low) as u8),
            (None, Some(low)) if s[1] == '+' => Some(low),
            _ => None,
        }
    } else {
        None
    }
}

/// A plus sign stands for a blank.
pub open spec fn plus_as_blank(c: char) -> char {
    if c == '+' {
        ' '
    } else {
        c
    }
}

/// The bytes that a text with percent signs stands for. What is no escape
/// stands for itself.
pub open spec fn unescaped(s: Seq<char>) -> Seq<u8>
    decreases s.len(),
{
    if s.len() == 0 {
        Seq::empty()
    } else {
        match escaped_byte(s) {
            Some(byte) => seq![byte] + unescaped(s.skip(3)),
            None => encode_utf8(seq![plus_as_blank(s[0])]) + unescaped(s.skip(1)),
        }
    }
}

/// Whether a text holds neither percent signs nor plus signs.
pub open spec fn plain(s: Seq<char>) -> bool {
    forall|i: int| 0 <= i < s.len() ==> #[trigger] s[i] != '%' && s[i] != '+'
}

/// A text without percent signs and plus signs stands for its own UTF-8 form.
pub proof fn plain_stands_for_itself(s: Seq<char>)
    requires
        plain(s),
    ensures
        unescaped(s) == encode_utf8(s),
    decreases s.len(),
{
    if s.len() > 0 {
        assert(s[0] != '%' && s[0] != '+');
        let rest = s.skip(1);
        assert forall|i: int| 0 <= i < rest.len() implies #[trigger] rest[i] != '%' && rest[i]
            != '+' by {
            assert(rest[i] == s[i + 1]);
        }
        plain_stands_for_itself(rest);
        assert(s.drop_first() =~= rest);
        let one = seq![s[0]];
        assert(one.drop_first() =~= Seq::<char>::empty());
        assert(encode_utf8(one) =~= vstd::utf8::encode_scalar(s[0] as u32)) by {
            reveal_with_fuel(encode_utf8, 2);
        }
    }
}

/// Bytes, each as a percent sign and two hexadecimal digits.
pub open spec fn escaped(bytes: Seq<u8>) -> Seq<char>
    decreases bytes.len(),
{
    if bytes.len() == 0 {
        Seq::empty()
    } else {
        let b = bytes[0] as int;
        seq!['%', hex_digit(b / 16), hex_digit(b % 16)] + escaped(bytes.drop_first())
    }
}

/// Any bytes can be carried by escapes: they are read back.
pub proof fn escaped_bytes_are_read_back(bytes: Seq<u8>)
    ensures
        unescaped(escaped(bytes)) == bytes,
    decreases bytes.len(),
{
    if bytes.len() > 0 {
        let rest = bytes.drop_first();
        let s = escaped(bytes);
        let b = bytes[0] as int;
        escaped_bytes_are_read_back(rest);
        assert(s.skip(3) =~= escaped(rest));
        assert(s[0] == '%' && s[1] == hex_digit(b / 16) && s[2] == hex_digit(b % 16));
        assert(nibble(s[1]) == Some((b / 16) as u8));
        assert(nibble(s[2]) == Some((b % 16) as u8));
        assert(escaped_byte(s) == Some(bytes[0]));
        assert(seq![bytes[0]] + rest =~= bytes);
    }
}

/// Whether the two bytes behind the percent sign at `at` end in the middle of
/// a character.
pub open spec fn cuts_character(s: Seq<char>, at: int) -> bool {
    ||| at + 1 < s.len() && s[at + 1] as u32 >= 0x800
    ||| at + 2 < s.len() && (s[at + 1] as u32) < 0x80 && s[at + 2] as u32 >= 0x80
}

/// Whether the two bytes behind each percent sign are whole characters.
pub open spec fn aligned(s: Seq<char>) -> bool {
    forall|at: int| 0 <= at < s.len() && #[trigger] s[at] == '%' ==> !cuts_character(s, at)
}

fn nibble_of(c: char) -> (r: Option<u8>)
    ensures
        r == nibble(c),
        r matches Some(n) ==> n < 16,
{
    let n: u32 = c as u32;
    if '0' <= c && c <= '9' {
        Some((n - 0x30) as u8)
    } else if 'a' <= c && c <= 'f' {
        Some((n - 0x57) as u8)
    } else if 'A' <= c && c <= 'F' {
        Some((n - 0x37) as u8)
    } else {
        None
    }
}

fn escaped_byte_at(all: &Vec<char>, i: usize) -> (r: Option<u8>)
    requires
        i < all.len(),
    ensures
        r == escaped_byte(all@.skip(i as int)),
{
    let ghost rest = all@.skip(i as int);
    if all.len() - i >= 3 && all[i] == '%' {
        assert(rest[1] == all@[i + 1] && rest[2] == all@[i + 2]);
        match (nibble_of(all[i + 1]), nibble_of(all[i + 2])) {
            (Some(high), Some(low)) => Some(16 * high + low),
            (None, Some(low)) => if all[i + 1] == '+' {
                Some(low)
            } else {
                None
            },
            _ => None,
        }
    } else {
        None
    }
}

fn push_char(out: &mut Vec<u8>, c: char)
    ensures
        final(out)@ == old(out)@ + encode_utf8(seq![c]),
{
    let mut one: String = String::new();
    one.push(c);
    assert(one@ =~= seq![c]);
    let bytes = one.as_str().as_bytes();
    let ghost start = out@;
    let mut i: usize = 0;
    while i < bytes.len()
        invariant
            i <= bytes.len(),
            out@ =~= start + bytes@.take(i as int),
        decreases bytes.len() - i,
    {
        out.push(bytes[i]);
        i += 1;
    }
    assert(bytes@.take(i as int) =~= bytes@);
}

/// The bytes that `input` stands for.
pub fn percent_decode_bytes(input: &str) -> (out: Vec<u8>)
    ensures
        out@ == unescaped(input@),
{
    let all = chars(input);
    let mut out: Vec<u8> = Vec::new();
    let mut i: usize = 0;
    assert(all@.skip(0) =~= all@);
    while i < all.len()
        invariant
            i <= all.len(),
            all@ == input@,
            out@ + unescaped(all@.skip(i as int)) =~= unescaped(input@),
        decreases all.len() - i,
    {
        let ghost rest = all@.skip(i as int);
        match escaped_byte_at(&all, i) {
            Some(byte) => {
                out.push(byte);
                assert(rest.skip(3) =~= all@.skip(i + 3));
                i += 3;
            },
            None => {
                let c = if all[i] == '+' {
                    ' '
                } else {
                    all[i]
                };
                push_char(&mut out, c);
                assert(rest.skip(1) =~= all@.skip(i + 1));
                i += 1;
            },
        }
    }
    assert(all@.skip(i as int) =~= Seq::empty());
    out
}

/// The text that a query's value stands for.
pub open spec fn percent_decoded(s: Seq<char>) -> Seq<char> {
    lossy_text(unescaped(s))
}

/// Whether `text` is what a query's value stands for: where the value's bytes
/// are UTF-8, the text that they encode.
pub open spec fn decodes(value: Seq<char>, text: Seq<char>) -> bool {
    &&& text == percent_decoded(value)
    &&& valid_utf8(unescaped(value)) ==> text == decode_utf8(unescaped(value))
}

/// The text that a query's value stands for.
pub fn percent_decode(input: &str) -> (r: String)
    requires
        aligned(input@),
    ensures
        decodes(input@, r@),
        plain(input@) ==> r@ == input@,
{
    let out = percent_decode_bytes(input);
    proof {
        if plain(input@) {
            plain_stands_for_itself(input@);
            vstd::utf8::encode_utf8_valid_utf8(input@);
            vstd::utf8::encode_utf8_decode_utf8(input@);
        }
    }
    from_utf8_lossy(out.as_slice())
}

/// Whether the two bytes behind each percent sign of `s` are whole characters.
pub fn is_aligned(s: &str) -> (r: bool)
    ensures
        r == aligned(s@),
{
    let all = chars(s);
    let mut at: usize = 0;
    while at < all.len()
        invariant
            at <= all.len(),
            all@ == s@,
            forall|k: int| 0 <= k < at && #[trigger] s@[k] == '%' ==> !cuts_character(s@, k),
        decreases all.len() - at,
    {
        if all[at] == '%' {
            let wide = at + 1 < all.len() && all[at + 1] as u32 >= 0x800;
            let cut = all.len() - at > 2 && (all[at + 1] as u32) < 0x80 && all[at + 2] as u32
                >= 0x80;
            if wide || cut {
                assert(s@[at as int] == '%' && cuts_character(s@, at as int));
                return false;
            }
        }
        at += 1;
    }
    true
}

/// The second word of a request's first line.
pub open spec fn request_target(request: Seq<char>) -> Option<Seq<char>> {
    let all = lines(request);
    if all.len() > 0 && words(all[0]).len() > 1 {
        Some(words(all[0])[1])
    } else {
        None
    }
}

/// The query of a request to the callback.
pub open spec fn callback_query(request: Seq<char>) -> Option<Seq<char>> {
    match request_target(request) {
        Some(target) => match halves(target, '?') {
            Some((path, query)) => if path == "/callback"@ {
                Some(query)
            } else {
                None
            },
            None => None,
        },
        None => None,
    }
}

/// The value of a query's last pair of this name, as it was sent.
pub open spec fn parameter(pairs: Seq<Seq<char>>, name: Seq<char>) -> Option<Seq<char>>
    decreases pairs.len(),
{
    if pairs.len() == 0 {
        None
    } else {
        match halves(pairs.last(), '=') {
            Some((key, value)) => if key == name {
                Some(value)
            } else {
                parameter(pairs.drop_last(), name)
            },
            None => parameter(pairs.drop_last(), name),
        }
    }
}

/// Whether the value of a pair, if it has one, can be decoded.
pub open spec fn pair_aligned(pair: Seq<char>) -> bool {
    match halves(pair, '=') {
        Some((_, value)) => aligned(value),
        None => true,
    }
}

/// Whether all values of a query can be decoded.
pub open spec fn pairs_aligned(pairs: Seq<Seq<char>>) -> bool {
    forall|i: int| 0 <= i < pairs.len() ==> pair_aligned(#[trigger] pairs[i])
}

/// Whether all values of a request to the callback can be decoded.
pub open spec fn request_aligned(request: Seq<char>) -> bool {
    match callback_query(request) {
        Some(query) => pairs_aligned(pieces(query, '&')),
        None => true,
    }
}

/// Whether a login is what a request to the callback carries.
pub open spec fn carries(request: Seq<char>, login: Option<LoginProof>) -> bool {
    let pairs = match callback_query(request) {
        Some(query) => pieces(query, '&'),
        None => Seq::empty(),
    };
    match (
        parameter(pairs, "provider"@),
        parameter(pairs, "provider_id"@),
        parameter(pairs, "access_token"@),
    ) {
        (Some(provider), Some(provider_id), Some(access_token)) => {
            &&& login is Some
            &&& decodes(provider, login->0.provider@)
            &&& decodes(provider_id, login->0.provider_id@)
            &&& decodes(access_token, login->0.access_token@)
        },
        _ => login is None,
    }
}

fn query_of(request: &str) -> (r: Option<String>)
    ensures
        match r {
            Some(query) => callback_query(request@) == Some(query@),
            None => callback_query(request@) is None,
        },
{
    let all = split_lines(request);
    if all.len() == 0 {
        return None;
    }
    assert(texts(all@)[0] == all@[0]@);
    let found = split_whitespace(all[0].as_str());
    if found.len() < 2 {
        return None;
    }
    assert(texts(found@)[1] == found@[1]@);
    match split_once(found[1].as_str(), '?') {
        Some((path, query)) => if same(path, "/callback") {
            Some(query.to_owned())
        } else {
            None
        },
        None => None,
    }
}

fn find_parameter(pairs: &Vec<String>, name: &str) -> (r: Option<String>)
    requires
        pairs_aligned(texts(pairs@)),
    ensures
        match r {
            Some(value) => {
                &&& parameter(texts(pairs@), name@) is Some
                &&& decodes(parameter(texts(pairs@), name@)->0, value@)
            },
            None => parameter(texts(pairs@), name@) is None,
        },
{
    let ghost whole = texts(pairs@);
    let mut i: usize = pairs.len();
    assert(whole.take(i as int) =~= whole);
    while i > 0
        invariant
            i <= pairs.len(),
            whole == texts(pairs@),
            pairs_aligned(whole),
            parameter(whole.take(i as int), name@) == parameter(whole, name@),
        decreases i,
    {
        i -= 1;
        let ghost seen = whole.take(i + 1);
        assert(seen.drop_last() =~= whole.take(i as int));
        assert(seen.last() == pairs@[i as int]@);
        assert(pair_aligned(whole[i as int]));
        if let Some((key, value)) = split_once(pairs[i].as_str(), '=') {
            if same(key, name) {
                return Some(percent_decode(value));
            }
        }
    }
    None
}

/// The login that a request to the callback carries.
pub fn parse_callback(request: &str) -> (r: Option<LoginProof>)
    requires
        request_aligned(request@),
    ensures
        carries(request@, r),
{
    let query = match query_of(request) {
        Some(query) => query,
        None => {
            return None;
        },
    };
    let pairs = split(query.as_str(), '&');
    let provider = find_parameter(&pairs, "provider");
    let provider_id = find_parameter(&pairs, "provider_id");
    let access_token = find_parameter(&pairs, "access_token");
    match (provider, provider_id, access_token) {
        (Some(provider), Some(provider_id), Some(access_token)) => Some(
            LoginProof { provider, provider_id, access_token },
        ),
        _ => None,
    }
}

/// Whether all values of a request to the callback can be decoded.
pub fn is_request_aligned(request: &str) -> (r: bool)
    ensures
        r == request_aligned(request@),
{
    let query = match query_of(request) {
        Some(query) => query,
        None => {
            return true;
        },
    };
    let pairs = split(query.as_str(), '&');
    let ghost whole = pieces(query@, '&');
    let mut i: usize = 0;
    while i < pairs.len()
        invariant
            i <= pairs.len(),
            whole == texts(pairs@),
            callback_query(request@) == Some(query@),
            whole == pieces(query@, '&'),
            forall|k: int| 0 <= k < i ==> pair_aligned(#[trigger] whole[k]),
        decreases pairs.len() - i,
    {
        assert(whole[i as int] == pairs@[i as int]@);
        if let Some((_, value)) = split_once(pairs[i].as_str(), '=') {
            if !is_aligned(value) {
                assert(!pair_aligned(whole[i as int]));
                return false;
            }
        }
        i += 1;
    }
    true
}

/// Whether `r` is what a request to the callback comes to: the login that it
/// carries, or `None` where an escape among its values ends in the middle of a
/// character.
pub open spec fn comes_to(request: Seq<char>, r: Option<Option<LoginProof>>) -> bool {
    match r {
        Some(login) => request_aligned(request) && carries(request, login),
        None => !request_aligned(request),
    }
}

/// The login that the bytes of a request to the callback carry; `None` where
/// an escape among its values ends in the middle of a character.
pub fn read_callback(bytes: &[u8]) -> (r: Option<Option<LoginProof>>)
    ensures
        comes_to(lossy_text(bytes@), r),
        valid_utf8(bytes@) ==> comes_to(decode_utf8(bytes@), r),
{
    let request = from_utf8_lossy(bytes);
    if is_request_aligned(request.as_str()) {
        Some(parse_callback(request.as_str()))
    } else {
        None
    }
}

/// The head of a response on the loopback connection.
pub open spec fn response_head(
    status: Seq<char>,
    content_type: Seq<char>,
    body: Seq<char>,
) -> Seq<char> {
    "HTTP/1.1 "@ + status + "\r\nContent-Type: "@ + content_type + "\r\nContent-Length: "@ + decimal(
        encode_utf8(body).len(),
    ) + "\r\nCache-Control: no-store\r\nConnection: close\r\n\r\n"@
}

/// The head of a response on the loopback connection.
pub fn write_response(status: &str, content_type: &str, body: &str) -> (head: String)
    ensures
        head@ == response_head(status@, content_type@, body@),
{
    let mut head = "HTTP/1.1 ".to_owned();
    append(&mut head, status);
    append(&mut head, "\r\nContent-Type: ");
    append(&mut head, content_type);
    append(&mut head, "\r\nContent-Length: ");
    let length = to_decimal(body.as_bytes().len() as u64);
    append(&mut head, length.as_str());
    append(&mut head, "\r\nCache-Control: no-store\r\nConnection: close\r\n\r\n");
    head
}

/// What is sent back on a loopback connection.
pub struct CallbackReply {
    pub head: String,
    pub body: &'static str,
    /// Whether to wait for another connection.
    pub again: bool,
}

/// The reply to a connection, by whether it carried a login.
pub fn accept_callback(login: &Option<LoginProof>) -> (r: CallbackReply)
    ensures
        match login {
            Some(_) => {
                &&& !r.again
                &&& r.body@ == LOGIN_SUCCESS_HTML@
                &&& r.head@ == response_head("200 OK"@, "text/html; charset=utf-8"@, r.body@)
            },
            None => {
                &&& r.again
                &&& r.body@ == "bad request"@
                &&& r.head@ == response_head(
                    "400 Bad Request"@,
                    "text/plain; charset=utf-8"@,
                    r.body@,
                )
            },
        },
{
    match login {
        Some(_) => CallbackReply {
            head: write_response("200 OK", "text/html; charset=utf-8", LOGIN_SUCCESS_HTML),
            body: LOGIN_SUCCESS_HTML,
            again: false,
        },
        None => CallbackReply {
            head: write_response("400 Bad Request", "text/plain; charset=utf-8", "bad request"),
            body: "bad request",
            again: true,
        },
    }
}

/// The value of a hexadecimal digit, of either case; nothing else has one.
pub proof fn hexadecimal_digits_have_values(c: char)
    ensures
        '0' <= c <= '9' ==> nibble(c) == Some((c as int - '0' as int) as u8),
        'a' <= c <= 'f' ==> nibble(c) == Some((c as int - 'a' as int + 10) as u8),
        'A' <= c <= 'F' ==> nibble(c) == Some((c as int - 'A' as int + 10) as u8),
        !('0' <= c <= '9') && !('a' <= c <= 'f') && !('A' <= c <= 'F') ==> nibble(c) is None,
{
}

/// Decoding goes character by character: an escape stands for its byte, a plus
/// sign for a blank, and any other character, and a percent sign that begins no
/// escape, for itself.
pub proof fn values_are_decoded_in_turn(c: char, rest: Seq<char>, high: char, low: char)
    ensures
        c != '%' && c != '+' ==> unescaped(seq![c] + rest) == encode_utf8(seq![c]) + unescaped(
            rest,
        ),
        unescaped(seq!['+'] + rest) == encode_utf8(seq![' ']) + unescaped(rest),
        nibble(high) is Some && nibble(low) is Some ==> unescaped(seq!['%', high, low] + rest)
            == seq![(16 * nibble(high)->0 + nibble(low)->0) as u8] + unescaped(rest),
        nibble(low) is None || (nibble(high) is None && high != '+') ==> unescaped(
            seq!['%', high, low] + rest,
        ) == encode_utf8(seq!['%']) + unescaped(seq![high, low] + rest),
        rest.len() < 2 ==> unescaped(seq!['%'] + rest) == encode_utf8(seq!['%']) + unescaped(rest),
{
    let one = seq![c] + rest;
    assert(one.skip(1) =~= rest);
    let plus = seq!['+'] + rest;
    assert(plus.skip(1) =~= rest);
    let escape = seq!['%', high, low] + rest;
    assert(escape.skip(3) =~= rest);
    assert(escape.skip(1) =~= seq![high, low] + rest);
    let sign = seq!['%'] + rest;
    assert(sign.skip(1) =~= rest);
}

/// A text of ASCII characters alone, and one whose percent signs are each followed
/// by two of them, can be decoded.
pub proof fn ascii_behind_percent_signs_can_be_decoded(s: Seq<char>)
    requires
        forall|i: int|
            0 <= i < s.len() && #[trigger] s[i] == '%' ==> (i + 1 < s.len() ==> (s[i + 1] as u32)
                < 0x80) && (i + 2 < s.len() ==> (s[i + 2] as u32) < 0x80),
    ensures
        aligned(s),
{
}

/// The query is what follows the first question mark of the second word of a
/// request's first line, where what precedes it is the callback's path; a request
/// for another path has none.
pub proof fn query_follows_the_path(
    method: Seq<char>,
    path: Seq<char>,
    query: Seq<char>,
    version: Seq<char>,
    more: Seq<char>,
)
    requires
        method.len() > 0,
        forall|i: int| 0 <= i < method.len() ==> !is_white_space(#[trigger] method[i]),
        forall|i: int| 0 <= i < path.len() ==> !is_white_space(#[trigger] path[i]),
        forall|i: int| 0 <= i < query.len() ==> !is_white_space(#[trigger] query[i]),
        !path.contains('?'),
        !version.contains('\n'),
    ensures
        ({
            let line = method + seq![' '] + (path + seq!['?'] + query) + seq![' '] + version;
            callback_query(line + seq!['\n'] + more) == if path == "/callback"@ {
                Some(query)
            } else {
                None
            }
        }),
{
    let target = path + seq!['?'] + query;
    let line = method + seq![' '] + target + seq![' '] + version;
    assert forall|i: int| 0 <= i < target.len() implies !is_white_space(#[trigger] target[i]) by {
        if i < path.len() {
            assert(target[i] == path[i]);
        } else if i > path.len() {
            assert(target[i] == query[i - path.len() - 1]);
        }
    }
    assert(!line.contains('\n')) by {
        if line.contains('\n') {
            let i = choose|i: int| 0 <= i < line.len() && line[i] == '\n';
            if i < method.len() {
                assert(line[i] == method[i]);
            } else if i > method.len() && i < method.len() + 1 + target.len() {
                assert(line[i] == target[i - method.len() - 1]);
            } else if i > method.len() + 1 + target.len() {
                assert(line[i] == version[i - method.len() - target.len() - 2]);
                assert(version.contains('\n'));
            }
        }
    }
    newline_ends_a_line(line, more);
    let all = lines(line + seq!['\n'] + more);
    assert(all[0] == without_return(line));
    let tail = without_return(seq![' '] + version).skip(1);
    assert(without_return(line) =~= method + seq![' '] + (target + seq![' '] + tail));
    blank_parts_words(method, ' ', target + seq![' '] + tail);
    blank_parts_words(target, ' ', tail);
    assert(words(all[0])[1] == target);
    halves_are_parted_at_the_first(path, '?', query);
}

/// The pair of a name that stands last in a query counts; a pair without an equals
/// sign, or of another name, does not count for it.
pub proof fn last_pair_of_a_name_counts(
    pairs: Seq<Seq<char>>,
    name: Seq<char>,
    value: Seq<char>,
    other: Seq<char>,
)
    requires
        !name.contains('='),
        !other.contains('='),
        other != name,
    ensures
        parameter(pairs.push(name + seq!['='] + value), name) == Some(value),
        parameter(pairs.push(other + seq!['='] + value), name) == parameter(pairs, name),
        parameter(pairs.push(other), name) == parameter(pairs, name),
        parameter(Seq::empty(), name) is None,
{
    assert(pairs.push(name + seq!['='] + value).drop_last() =~= pairs);
    assert(pairs.push(other + seq!['='] + value).drop_last() =~= pairs);
    assert(pairs.push(other).drop_last() =~= pairs);
    halves_are_parted_at_the_first(name, '=', value);
    halves_are_parted_at_the_first(other, '=', value);
}

/// A request carries a login exactly where its query has all three values; the
/// login is made of what these stand for.
pub proof fn login_has_three_values(request: Seq<char>, query: Seq<char>, login: Option<LoginProof>)
    requires
        callback_query(request) == Some(query),
        carries(request, login),
    ensures
        ({
            let pairs = pieces(query, '&');
            let provider = parameter(pairs, "provider"@);
            let provider_id = parameter(pairs, "provider_id"@);
            let access_token = parameter(pairs, "access_token"@);
            &&& login is Some <==> provider is Some && provider_id is Some && access_token is Some
            &&& login is Some ==> {
                &&& login->0.provider@ == lossy_text(unescaped(provider->0))
                &&& login->0.provider_id@ == lossy_text(unescaped(provider_id->0))
                &&& login->0.access_token@ == lossy_text(unescaped(access_token->0))
                &&& valid_utf8(unescaped(provider->0)) ==> login->0.provider@ == decode_utf8(
                    unescaped(provider->0),
                )
                &&& valid_utf8(unescaped(provider_id->0)) ==> login->0.provider_id@ == decode_utf8(
                    unescaped(provider_id->0),
                )
                &&& valid_utf8(unescaped(access_token->0)) ==> login->0.access_token@
                    == decode_utf8(unescaped(access_token->0))
            }
        }),
{
}

/// A request without a query for the callback carries no login.
pub proof fn other_requests_carry_no_login(request: Seq<char>, login: Option<LoginProof>)
    requires
        callback_query(request) is None,
        carries(request, login),
    ensures
        login is None,
{
}

/// The head of a response says its status, its type, the number of bytes that
/// follow, and that the connection ends with them.
pub proof fn head_says_what_follows(status: Seq<char>, content_type: Seq<char>, body: Seq<char>)
    ensures
        response_head(status, content_type, body) == "HTTP/1.1 "@ + status
            + "\r\nContent-Type: "@ + content_type + "\r\nContent-Length: "@ + decimal(
            encode_utf8(body).len(),
        ) + "\r\nCache-Control: no-store\r\nConnection: close\r\n\r\n"@,
{
}

/// A request whose first line has no second word, or whose second word has no
/// question mark, has no query.
pub proof fn incomplete_requests_have_no_query(request: Seq<char>)
    ensures
        lines(request).len() == 0 ==> callback_query(request) is None,
        lines(request).len() > 0 && words(lines(request)[0]).len() < 2 ==> callback_query(request)
            is None,
        lines(request).len() > 0 && words(lines(request)[0]).len() >= 2 && !words(
            lines(request)[0],
        )[1].contains('?') ==> callback_query(request) is None,
{
    if lines(request).len() > 0 && words(lines(request)[0]).len() >= 2 && !words(
        lines(request)[0],
    )[1].contains('?') {
        halves_are_parted_at_the_first(words(lines(request)[0])[1], '?', Seq::empty());
    }
}

/// A value can be decoded exactly where the two bytes behind each percent sign are
/// whole characters: two of one byte, or one of two, or fewer where the value ends.
pub proof fn decodable_values_have_whole_characters(s: Seq<char>)
    ensures
        aligned(s) <==> forall|at: int|
            0 <= at < s.len() && #[trigger] s[at] == '%' ==> (at + 1 < s.len() ==> (s[at + 1]
                as u32) < 0x800) && (at + 2 < s.len() && (s[at + 1] as u32) < 0x80 ==> (s[at + 2]
                as u32) < 0x80),
{
    assert forall|at: int| 0 <= at < s.len() && #[trigger] s[at] == '%' implies (!cuts_character(
        s,
        at,
    ) <==> (at + 1 < s.len() ==> (s[at + 1] as u32) < 0x800) && (at + 2 < s.len() && (s[at + 1]
        as u32) < 0x80 ==> (s[at + 2] as u32) < 0x80)) by {}
}

/// All values of a query have to be decodable, whatever their names.
pub proof fn all_values_are_decoded(request: Seq<char>, query: Seq<char>)
    ensures
        callback_query(request) == Some(query) ==> (request_aligned(request) <==> forall|i: int|
            0 <= i < pieces(query, '&').len() ==> (halves(
                #[trigger] pieces(query, '&')[i],
                '=',
            ) matches Some(pair) ==> aligned(pair.1))),
        callback_query(request) is None ==> request_aligned(request),
{
    assert forall|i: int| 0 <= i < pieces(query, '&').len() implies (pair_aligned(
        #[trigger] pieces(query, '&')[i],
    ) <==> (halves(pieces(query, '&')[i], '=') matches Some(pair) ==> aligned(pair.1))) by {}
}

} // verus!
