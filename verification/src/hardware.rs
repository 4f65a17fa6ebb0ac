//! The identifier of the machine.

use vstd::prelude::*;
use vstd::utf8::decode_utf8;
use vstd::utf8::valid_utf8;

use crate::encoding::digest_text;
use crate::encoding::from_utf8_lossy;
use crate::encoding::is_lower_hex;
use crate::encoding::lossy_text;
use crate::encoding::sha256_hex;
use crate::text::contains;
use crate::text::holds_text;
use crate::text::joined;
use crate::text::joined_texts_are_the_pieces;
use crate::text::lines;
use crate::text::pieces;
use crate::text::pieces_of_both;
use crate::text::split;
use crate::text::split_lines;
use crate::text::strip_both;
use crate::text::texts;
use crate::text::trim;
use crate::text::trim_matches;
use crate::text::trimmed;
use crate::text::CharClass;

verus! {

/// The hardware identifier of a machine: the digest of its own identifier.
/// There is none where the machine's identifier is unknown or blank.
pub fn collect_hwid(machine_id: Option<&str>) -> (r: Option<String>)
    ensures
        r is Some <==> machine_id is Some && trimmed(machine_id->0@).len() > 0,
        r matches Some(hwid) ==> hwid@ == digest_text(trimmed(machine_id->0@)),
        r matches Some(hwid) ==> hwid@.len() == 64 && forall|i: int|
            0 <= i < 64 ==> is_lower_hex(#[trigger] hwid@[i]),
{
    match machine_id {
        Some(id) => {
            let id = trim(id);
            if id.is_empty() {
                None
            } else {
                Some(sha256_hex(id))
            }
        },
        None => None,
    }
}

/// The place of the first line that names the platform's UUID, or the number
/// of lines.
pub open spec fn uuid_line(all: Seq<Seq<char>>) -> int
    decreases all.len(),
{
    if all.len() == 0 || holds_text(all[0], "IOPlatformUUID"@) {
        0
    } else {
        1 + uuid_line(all.drop_first())
    }
}

/// The platform's UUID in what `ioreg` prints: what follows the last equals
/// sign of the first line that names it, without blanks and quotes around it.
pub open spec fn platform_uuid(output: Seq<char>) -> Option<Seq<char>> {
    let all = lines(output);
    let at = uuid_line(all);
    if at < all.len() {
        Some(strip_both(trimmed(pieces(all[at], '=').last()), CharClass::Only('"')))
    } else {
        None
    }
}

proof fn uuid_line_found(all: Seq<Seq<char>>, n: int)
    requires
        0 <= n <= all.len(),
        forall|i: int| 0 <= i < n ==> !holds_text(#[trigger] all[i], "IOPlatformUUID"@),
        n == all.len() || holds_text(all[n], "IOPlatformUUID"@),
    ensures
        uuid_line(all) == n,
    decreases n,
{
    if n > 0 {
        assert(!holds_text(all[0], "IOPlatformUUID"@));
        let rest = all.drop_first();
        assert forall|i: int| 0 <= i < n - 1 implies !holds_text(
            #[trigger] rest[i],
            "IOPlatformUUID"@,
        ) by {
            assert(rest[i] == all[i + 1]);
        }
        uuid_line_found(rest, n - 1);
    }
}

/// The machine's identifier in what `ioreg` printed.
pub fn machine_id_from_ioreg(stdout: &[u8]) -> (r: Option<String>)
    ensures
        match r {
            Some(id) => platform_uuid(lossy_text(stdout@)) == Some(id@),
            None => platform_uuid(lossy_text(stdout@)) is None,
        },
        valid_utf8(stdout@) ==> match r {
            Some(id) => platform_uuid(decode_utf8(stdout@)) == Some(id@),
            None => platform_uuid(decode_utf8(stdout@)) is None,
        },
{
    let output = from_utf8_lossy(stdout);
    platform_uuid_of(output.as_str())
}

/// The platform's UUID in the text that `ioreg` printed.
pub fn platform_uuid_of(output: &str) -> (r: Option<String>)
    ensures
        match r {
            Some(id) => platform_uuid(output@) == Some(id@),
            None => platform_uuid(output@) is None,
        },
{
    let all = split_lines(output);
    let ghost whole = lines(output@);
    let mut at: usize = 0;
    while at < all.len()
        invariant
            at <= all.len(),
            texts(all@) == whole,
            forall|i: int| 0 <= i < at ==> !holds_text(#[trigger] whole[i], "IOPlatformUUID"@),
        ensures
            at <= all.len(),
            at == all.len() || holds_text(whole[at as int], "IOPlatformUUID"@),
        decreases all.len() - at,
    {
        assert(texts(all@)[at as int] == all@[at as int]@);
        if contains(all[at].as_str(), "IOPlatformUUID") {
            break ;
        }
        at += 1;
    }
    proof {
        uuid_line_found(whole, at as int);
    }
    if at == all.len() {
        return None;
    }
    assert(texts(all@)[at as int] == all@[at as int]@);
    let parts = split(all[at].as_str(), '=');
    proof {
        crate::text::pieces_never_empty(whole[at as int], '=');
    }
    let last: usize = parts.len() - 1;
    assert(texts(parts@).last() == parts@[last as int]@);
    Some(trim_matches(trim(parts[last].as_str()), '"').to_owned())
}

/// The identifier stands in the first line that names it, behind the last equals
/// sign, without blanks and quotes around it.
pub proof fn identifier_stands_behind_the_equals_sign(
    output: Seq<char>,
    at: int,
    front: Seq<char>,
    value: Seq<char>,
)
    requires
        0 <= at < lines(output).len(),
        forall|i: int|
            0 <= i < at ==> !holds_text(#[trigger] lines(output)[i], "IOPlatformUUID"@),
        holds_text(lines(output)[at], "IOPlatformUUID"@),
        lines(output)[at] == front + seq!['='] + value,
        !value.contains('='),
    ensures
        platform_uuid(output) == Some(strip_both(trimmed(value), CharClass::Only('"'))),
{
    uuid_line_found(lines(output), at);
    pieces_of_both(front, value, '=');
    joined_texts_are_the_pieces(seq![value], '=');
    assert(joined(seq![value], seq!['=']) == value);
    assert(pieces(value, '=') == seq![value]);
}

/// Where no line names the identifier there is none.
pub proof fn unnamed_identifier_is_not_found(output: Seq<char>)
    requires
        forall|i: int|
            0 <= i < lines(output).len() ==> !holds_text(
                #[trigger] lines(output)[i],
                "IOPlatformUUID"@,
            ),
    ensures
        platform_uuid(output) is None,
{
    uuid_line_found(lines(output), lines(output).len() as int);
}

} // verus!
