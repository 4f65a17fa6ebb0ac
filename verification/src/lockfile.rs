//! The Riot client's lockfile, `name:pid:port:password:protocol`.

use vstd::prelude::*;
use vstd::utf8::encode_utf8;

use crate::encoding::base64_encode;
use crate::encoding::base64_encoded;
use crate::error::Error;
use crate::text::concat;
use crate::text::decimal;
use crate::text::decimal_is_read_back;
use crate::text::is_digit;
use crate::text::joined;
use crate::text::joined_texts_are_the_pieces;
use crate::text::parse_number;
use crate::text::parsed_number;
use crate::text::pieces;
use crate::text::split;
use crate::text::texts;
use crate::text::to_decimal;
use crate::text::trim;
use crate::text::trimmed;

verus! {

#[derive(Debug, PartialEq, Eq)]
pub struct Lockfile {
    pub name: String,
    pub pid: u32,
    pub port: u16,
    pub password: String,
    pub protocol: String,
}

impl Clone for Lockfile {
    fn clone(&self) -> (r: Self)
        ensures
            r == *self,
    {
        Lockfile {
            name: self.name.clone(),
            pid: self.pid,
            port: self.port,
            password: self.password.clone(),
            protocol: self.protocol.clone(),
        }
    }
}

/// The fields of a lockfile's content.
pub open spec fn fields(content: Seq<char>) -> Seq<Seq<char>> {
    pieces(trimmed(content), ':')
}

/// What is wrong with a lockfile's content, if anything.
pub open spec fn fault(content: Seq<char>) -> Option<Seq<char>> {
    let parts = fields(content);
    if parts.len() != 5 {
        Some("expected 5 fields, got "@ + decimal(parts.len()))
    } else if parsed_number(parts[1], u32::MAX as nat) is None {
        Some("invalid pid: "@ + parts[1])
    } else if parsed_number(parts[2], u16::MAX as nat) is None {
        Some("invalid port: "@ + parts[2])
    } else {
        None
    }
}

/// What a lockfile says.
pub struct LockfileView {
    pub name: Seq<char>,
    pub pid: u32,
    pub port: u16,
    pub password: Seq<char>,
    pub protocol: Seq<char>,
}

impl LockfileView {
    /// The address of the local API.
    pub open spec fn base_address(self) -> Seq<char> {
        self.protocol + "://127.0.0.1:"@ + decimal(self.port as nat)
    }

    /// The credentials of the local API, whose user is always `riot`.
    pub open spec fn basic_credentials(self) -> Seq<char> {
        "Basic "@ + base64_encoded(encode_utf8("riot:"@ + self.password))
    }
}

impl View for Lockfile {
    type V = LockfileView;

    open spec fn view(&self) -> LockfileView {
        LockfileView {
            name: self.name@,
            pid: self.pid,
            port: self.port,
            password: self.password@,
            protocol: self.protocol@,
        }
    }
}

/// The lockfile that `content` spells, if there is no fault in it.
pub open spec fn spelled(content: Seq<char>) -> Option<LockfileView> {
    let parts = fields(content);
    if fault(content) is Some {
        None
    } else {
        Some(
            LockfileView {
                name: parts[0],
                pid: parsed_number(parts[1], u32::MAX as nat)->0 as u32,
                port: parsed_number(parts[2], u16::MAX as nat)->0 as u16,
                password: parts[3],
                protocol: parts[4],
            },
        )
    }
}

impl Lockfile {
    pub fn parse(content: &str) -> (r: Result<Self, Error>)
        ensures
            match r {
                Ok(lockfile) => spelled(content@) == Some(lockfile@),
                Err(Error::Lockfile(text)) => fault(content@) == Some(text@),
                Err(_) => false,
            },
    {
        let parts = split(trim(content), ':');
        let ghost whole = fields(content@);
        assert(whole.len() == parts.len());
        assert forall|i: int| 0 <= i < parts.len() implies whole[i] == #[trigger] parts@[i]@ by {
            assert(texts(parts@)[i] == parts@[i]@);
        }
        if parts.len() != 5 {
            let count = to_decimal(parts.len() as u64);
            return Err(Error::Lockfile(concat("expected 5 fields, got ", count.as_str())));
        }
        let pid = match parse_number(parts[1].as_str(), u32::MAX) {
            Some(pid) => pid,
            None => {
                return Err(Error::Lockfile(concat("invalid pid: ", parts[1].as_str())));
            },
        };
        let port = match parse_number(parts[2].as_str(), u16::MAX as u32) {
            Some(port) => port,
            None => {
                return Err(Error::Lockfile(concat("invalid port: ", parts[2].as_str())));
            },
        };
        Ok(
            Lockfile {
                name: parts[0].clone(),
                pid,
                port: port as u16,
                password: parts[3].clone(),
                protocol: parts[4].clone(),
            },
        )
    }

    pub fn base_url(&self) -> (url: String)
        ensures
            url@ == self@.base_address(),
    {
        let port = to_decimal(self.port as u64);
        concat(concat(self.protocol.as_str(), "://127.0.0.1:").as_str(), port.as_str())
    }

    pub fn wss_url(&self) -> (url: String)
        ensures
            url@ == "wss://127.0.0.1:"@ + decimal(self.port as nat),
    {
        let port = to_decimal(self.port as u64);
        concat("wss://127.0.0.1:", port.as_str())
    }

    /// The basic authentication header of the local API.
    pub fn auth_header(&self) -> (header: String)
        ensures
            header@ == self@.basic_credentials(),
    {
        let credentials = concat("riot:", self.password.as_str());
        let token = base64_encode(credentials.as_str().as_bytes());
        concat("Basic ", token.as_str())
    }
}

/// Empty content spells no lockfile.
pub proof fn empty_content_spells_nothing()
    ensures
        spelled(Seq::empty()) is None,
{
    assert(fields(Seq::empty()).len() == 1);
}

/// The content that spells a lockfile.
pub open spec fn written(lockfile: LockfileView) -> Seq<char> {
    joined(
        seq![
            lockfile.name,
            decimal(lockfile.pid as nat),
            decimal(lockfile.port as nat),
            lockfile.password,
            lockfile.protocol,
        ],
        seq![':'],
    )
}

proof fn decimal_holds_no_colon(n: nat)
    ensures
        !decimal(n).contains(':'),
{
    decimal_is_read_back(n, n);
    if decimal(n).contains(':') {
        let i = choose|i: int| 0 <= i < decimal(n).len() && decimal(n)[i] == ':';
        assert(is_digit(decimal(n)[i]));
    }
}

/// A lockfile is read back from the content that spells it: `name`, `pid`,
/// `port`, `password` and `protocol`, with colons between them. The texts hold
/// no colons themselves, and there is no white space around the whole.
pub proof fn written_lockfile_is_read_back(lockfile: LockfileView)
    requires
        !lockfile.name.contains(':'),
        !lockfile.password.contains(':'),
        !lockfile.protocol.contains(':'),
        trimmed(written(lockfile)) == written(lockfile),
    ensures
        fault(written(lockfile)) is None,
        spelled(written(lockfile)) == Some(lockfile),
{
    let parts = seq![
        lockfile.name,
        decimal(lockfile.pid as nat),
        decimal(lockfile.port as nat),
        lockfile.password,
        lockfile.protocol,
    ];
    decimal_holds_no_colon(lockfile.pid as nat);
    decimal_holds_no_colon(lockfile.port as nat);
    decimal_is_read_back(lockfile.pid as nat, u32::MAX as nat);
    decimal_is_read_back(lockfile.port as nat, u16::MAX as nat);
    joined_texts_are_the_pieces(parts, ':');
    assert(fields(written(lockfile)) == parts);
}

/// A lockfile has five fields, the second and third of which are numbers that fit
/// their types; what is wrong with one is told by the first of these that fails.
/// Where nothing is, it says what the fields say.
pub proof fn faults_are_told_in_order(content: Seq<char>)
    ensures
        ({
            let parts = pieces(trimmed(content), ':');
            let pid = parsed_number(parts[1], 4_294_967_295);
            let port = parsed_number(parts[2], 65_535);
            &&& parts.len() != 5 ==> fault(content) == Some(
                "expected 5 fields, got "@ + decimal(parts.len()),
            )
            &&& parts.len() == 5 && pid is None ==> fault(content) == Some(
                "invalid pid: "@ + parts[1],
            )
            &&& parts.len() == 5 && pid is Some && port is None ==> fault(content) == Some(
                "invalid port: "@ + parts[2],
            )
            &&& parts.len() == 5 && pid is Some && port is Some ==> {
                &&& fault(content) is None
                &&& spelled(content) is Some
                &&& spelled(content)->0.name == parts[0]
                &&& spelled(content)->0.pid == pid->0
                &&& spelled(content)->0.port == port->0
                &&& spelled(content)->0.password == parts[3]
                &&& spelled(content)->0.protocol == parts[4]
            }
            &&& spelled(content) is Some <==> fault(content) is None
        }),
{
}

/// The local API is on this machine, at the port and by the protocol that the
/// lockfile gives, and its user is `riot`.
pub proof fn local_api_is_on_this_machine(lockfile: LockfileView)
    ensures
        lockfile.base_address() == lockfile.protocol + "://127.0.0.1:"@ + decimal(
            lockfile.port as nat,
        ),
        lockfile.basic_credentials() == "Basic "@ + base64_encoded(
            encode_utf8("riot:"@ + lockfile.password),
        ),
{
}

} // verus!
