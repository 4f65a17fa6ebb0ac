//! Digests and text encodings.

use base64::Engine;
use sha2::Digest;
use vstd::prelude::*;
use vstd::utf8::decode_utf8;
use vstd::utf8::encode_utf8;
use vstd::utf8::valid_utf8;

verus! {

/// The SHA-256 digest of `bytes`, as `sha2` computes it.
pub uninterp spec fn sha256_digest(bytes: Seq<u8>) -> Seq<u8>;

/// `sha2::Sha256`: the digest is a function of the bytes alone, and 32 bytes
/// long.
#[verifier::external_body]
fn sha256(bytes: &[u8]) -> (digest: Vec<u8>)
    ensures
        digest@ == sha256_digest(bytes@),
        digest@.len() == 32,
{
    let mut hasher = sha2::Sha256::new();
    hasher.update(bytes);
    hasher.finalize().to_vec()
}

/// The text that `base64`'s standard engine, with padding, encodes `bytes` to.
pub uninterp spec fn base64_encoded(bytes: Seq<u8>) -> Seq<char>;

/// `base64`'s `STANDARD.encode`: the text is a function of the bytes alone.
#[verifier::external_body]
pub(crate) fn base64_encode(bytes: &[u8]) -> (text: String)
    ensures
        text@ == base64_encoded(bytes@),
{
    base64::engine::general_purpose::STANDARD.encode(bytes)
}

/// The bytes that `base64`'s standard engine, which asks for padding, decodes
/// `text` to, if it accepts it.
pub uninterp spec fn base64_decoded(text: Seq<char>) -> Option<Seq<u8>>;

/// `base64`'s `STANDARD.decode`: whether the text is accepted, and the bytes,
/// are a function of the text alone.
#[verifier::external_body]
pub(crate) fn base64_decode(text: &str) -> (r: Option<Vec<u8>>)
    ensures
        match r {
            Some(bytes) => base64_decoded(text@) == Some(bytes@),
            None => base64_decoded(text@) is None,
        },
{
    base64::engine::general_purpose::STANDARD.decode(text).ok()
}

/// The bytes that `base64`'s URL-safe engine without padding decodes `text`
/// to, if it accepts it.
pub uninterp spec fn base64url_decoded(text: Seq<char>) -> Option<Seq<u8>>;

/// `base64`'s `URL_SAFE_NO_PAD.decode`: whether the text is accepted, and the
/// bytes, are a function of the text alone.
#[verifier::external_body]
pub(crate) fn base64url_decode(text: &str) -> (r: Option<Vec<u8>>)
    ensures
        match r {
            Some(bytes) => base64url_decoded(text@) == Some(bytes@),
            None => base64url_decoded(text@) is None,
        },
{
    base64::engine::general_purpose::URL_SAFE_NO_PAD.decode(text).ok()
}

/// The text that std reads in `bytes`, with replacement characters for what is
/// not UTF-8.
pub uninterp spec fn lossy_text(bytes: Seq<u8>) -> Seq<char>;

/// `String::from_utf8_lossy`: the text is a function of the bytes alone, and
/// is what the bytes encode where they are UTF-8.
#[verifier::external_body]
pub(crate) fn from_utf8_lossy(bytes: &[u8]) -> (text: String)
    ensures
        text@ == lossy_text(bytes@),
        valid_utf8(bytes@) ==> text@ == decode_utf8(bytes@),
{
    String::from_utf8_lossy(bytes).into_owned()
}

/// The lower case hexadecimal digit of a nibble.
pub open spec fn hex_digit(n: int) -> char {
    if n < 10 {
        (0x30 + n) as char
    } else {
        (0x57 + n) as char
    }
}

/// Two lower case hexadecimal digits for each byte.
pub open spec fn hex(bytes: Seq<u8>) -> Seq<char>
    decreases bytes.len(),
{
    if bytes.len() == 0 {
        Seq::empty()
    } else {
        let b = bytes.last() as int;
        hex(bytes.drop_last()).push(hex_digit(b / 16)).push(hex_digit(b % 16))
    }
}

/// Whether `c` is a lower case hexadecimal digit.
pub open spec fn is_lower_hex(c: char) -> bool {
    '0' <= c <= '9' || 'a' <= c <= 'f'
}

fn hex_char(n: u8) -> (c: char)
    requires
        n < 16,
    ensures
        c == hex_digit(n as int),
        is_lower_hex(c),
{
    let digits = [
        '0', '1', '2', '3', '4', '5', '6', '7', '8', '9', 'a', 'b', 'c', 'd', 'e', 'f',
    ];
    digits[n as usize]
}

fn to_hex(bytes: &[u8]) -> (text: String)
    ensures
        text@ == hex(bytes@),
        text@.len() == 2 * bytes@.len(),
        forall|i: int| 0 <= i < text@.len() ==> is_lower_hex(#[trigger] text@[i]),
{
    let mut text: String = String::new();
    let mut i: usize = 0;
    while i < bytes.len()
        invariant
            i <= bytes.len(),
            text@ == hex(bytes@.take(i as int)),
            text@.len() == 2 * i,
            forall|j: int| 0 <= j < text@.len() ==> is_lower_hex(#[trigger] text@[j]),
        decreases bytes.len() - i,
    {
        let b = bytes[i];
        text.push(hex_char(b / 16));
        text.push(hex_char(b % 16));
        i += 1;
        let ghost seen = bytes@.take(i as int);
        assert(seen.drop_last() =~= bytes@.take(i - 1));
        assert(seen.last() == b);
    }
    assert(bytes@.take(i as int) =~= bytes@);
    text
}

/// The SHA-256 digest of a text's UTF-8 form, in hexadecimal.
pub open spec fn digest_text(text: Seq<char>) -> Seq<char> {
    hex(sha256_digest(encode_utf8(text)))
}

/// The SHA-256 digest of a text, in hexadecimal.
pub fn sha256_hex(input: &str) -> (digest: String)
    ensures
        digest@ == digest_text(input@),
        digest@.len() == 64,
        forall|i: int| 0 <= i < 64 ==> is_lower_hex(#[trigger] digest@[i]),
{
    let digest = sha256(input.as_bytes());
    to_hex(digest.as_slice())
}

/// Each byte is written by two hexadecimal digits, the high one first, whose
/// values give it back.
pub proof fn hexadecimal_gives_the_bytes_back(bytes: Seq<u8>)
    ensures
        hex(bytes).len() == 2 * bytes.len(),
        forall|i: int|
            0 <= i < bytes.len() ==> hex(bytes)[2 * i] == hex_digit((#[trigger] bytes[i]) as int / 16)
                && hex(bytes)[2 * i + 1] == hex_digit(bytes[i] as int % 16),
        forall|n: int| 0 <= n < 10 ==> #[trigger] hex_digit(n) as int == '0' as int + n,
        forall|n: int| 10 <= n < 16 ==> #[trigger] hex_digit(n) as int == 'a' as int + (n - 10),
    decreases bytes.len(),
{
    if bytes.len() > 0 {
        let init = bytes.drop_last();
        hexadecimal_gives_the_bytes_back(init);
        assert forall|i: int| 0 <= i < bytes.len() implies hex(bytes)[2 * i] == hex_digit(
            (#[trigger] bytes[i]) as int / 16,
        ) && hex(bytes)[2 * i + 1] == hex_digit(bytes[i] as int % 16) by {
            if i < init.len() {
                assert(init[i] == bytes[i]);
            }
        }
    }
}

/// A text is told by the SHA-256 digest of its UTF-8 form, in hexadecimal.
pub proof fn texts_are_told_by_their_digest(text: Seq<char>)
    ensures
        digest_text(text) == hex(sha256_digest(encode_utf8(text))),
{
}

} // verus!
